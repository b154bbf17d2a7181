//! Whole-machine tests: reset state, ROM loading, the cycle loop with its
//! three clock domains, the draw collision flag, the GetKey busy wait, and
//! the call-stack faults.

use chip8::Chip8;
use chip8::Chip8Error;
use chip8::Instruction;
use chip8::KeyState;
use chip8::SoundCommand;

const RELEASED: [KeyState; 16] = [KeyState::Released; 16];

#[test]
fn reset_state_has_fonts_and_reset_pc() {
    let c = Chip8::new();
    assert_eq!(c.get_pc(), 0x200);
    assert_eq!(c.get_sp(), 0);
    assert_eq!(c.get_i(), 0);
    assert_eq!(c.get_delay_timer(), 0);
    assert_eq!(c.get_sound_timer(), 0);
    let display = c.get_display();
    assert_eq!(display.len(), 64 * 32);
    assert!(display.iter().all(|&p| p == 0));
    assert_eq!(c.read_memory(0), 0xF0);
    assert_eq!(c.read_memory(5), 0x20);
    assert_eq!(c.read_memory(79), 0x80);
    assert_eq!(c.read_memory(80), 0);
}

#[test]
fn load_rom_copies_bytes_to_the_reset_address() {
    let mut c = Chip8::new();
    assert_eq!(c.load_rom(&[0xAB, 0xCD]), Ok(()));
    assert_eq!(c.read_memory(0x200), 0xAB);
    assert_eq!(c.read_memory(0x201), 0xCD);
    assert_eq!(c.read_memory(0x202), 0);
}

#[test]
fn load_rom_rejects_an_image_that_does_not_fit() {
    let mut c = Chip8::new();
    let exact = vec![0u8; 3584];
    assert_eq!(c.load_rom(&exact), Ok(()));
    let too_large = vec![0u8; 3585];
    assert_eq!(c.load_rom(&too_large), Err(Chip8Error::RomTooLarge));
}

#[test]
fn draw_collision_toggles_pixel_and_sets_vf() {
    let mut c = Chip8::new();
    assert_eq!(c.load_rom(&[0x80]), Ok(()));
    assert_eq!(c.execute_instruction(Instruction::LoadI(0x200), 0), Ok(()));
    c.set_register(0, 5);
    c.set_register(1, 6);
    assert_eq!(c.execute_instruction(Instruction::Draw(0, 1, 1), 0), Ok(()));
    assert_eq!(c.get_display()[6 * 64 + 5], 1);
    assert_eq!(c.get_register(0xF), 0);
    assert_eq!(c.execute_instruction(Instruction::Draw(0, 1, 1), 0), Ok(()));
    assert_eq!(c.get_display()[6 * 64 + 5], 0);
    assert_eq!(c.get_register(0xF), 1);
}

#[test]
fn non_overlapping_draws_leave_vf_clear() {
    let mut c = Chip8::new();
    assert_eq!(c.load_rom(&[0x80]), Ok(()));
    assert_eq!(c.execute_instruction(Instruction::LoadI(0x200), 0), Ok(()));
    c.set_register(0, 5);
    c.set_register(1, 6);
    assert_eq!(c.execute_instruction(Instruction::Draw(0, 1, 1), 0), Ok(()));
    c.set_register(0, 20);
    assert_eq!(c.execute_instruction(Instruction::Draw(0, 1, 1), 0), Ok(()));
    assert_eq!(c.get_display()[6 * 64 + 5], 1);
    assert_eq!(c.get_display()[6 * 64 + 20], 1);
    assert_eq!(c.get_register(0xF), 0);
}

#[test]
fn draw_clips_at_the_edges_instead_of_wrapping() {
    let mut c = Chip8::new();
    assert_eq!(c.load_rom(&[0xFF, 0xFF]), Ok(()));
    assert_eq!(c.execute_instruction(Instruction::LoadI(0x200), 0), Ok(()));
    c.set_register(0, 62);
    c.set_register(1, 31);
    assert_eq!(c.execute_instruction(Instruction::Draw(0, 1, 2), 0), Ok(()));
    let display = c.get_display();
    assert_eq!(display[31 * 64 + 62], 1);
    assert_eq!(display[31 * 64 + 63], 1);
    assert_eq!(display[31 * 64 + 0], 0);
    assert_eq!(display[0 * 64 + 62], 0);
}

#[test]
fn draw_wraps_the_start_coordinates_on_entry() {
    let mut c = Chip8::new();
    assert_eq!(c.load_rom(&[0x80]), Ok(()));
    assert_eq!(c.execute_instruction(Instruction::LoadI(0x200), 0), Ok(()));
    c.set_register(0, 64 + 3);
    c.set_register(1, 32 + 2);
    assert_eq!(c.execute_instruction(Instruction::Draw(0, 1, 1), 0), Ok(()));
    assert_eq!(c.get_display()[2 * 64 + 3], 1);
}

#[test]
fn clear_zeroes_the_display() {
    let mut c = Chip8::new();
    assert_eq!(c.load_rom(&[0x80]), Ok(()));
    assert_eq!(c.execute_instruction(Instruction::LoadI(0x200), 0), Ok(()));
    c.set_register(0, 5);
    c.set_register(1, 6);
    assert_eq!(c.execute_instruction(Instruction::Draw(0, 1, 1), 0), Ok(()));
    assert_eq!(c.execute_instruction(Instruction::Clear, 0), Ok(()));
    assert!(c.get_display().iter().all(|&p| p == 0));
}

#[test]
fn timer_decay_reaches_zero_and_stays_there() {
    let mut c = Chip8::new();
    assert_eq!(c.load_rom(&[0x12, 0x00]), Ok(()));
    c.set_register(0, 2);
    assert_eq!(c.execute_instruction(Instruction::SetDelayTimer(0), 0), Ok(()));
    // One timer interval is 1_000_000 / 15 microseconds.
    let tick = 1_000_000 / 15;
    assert_eq!(c.cycle(RELEASED, 0), Ok(None));
    assert_eq!(c.get_delay_timer(), 2);
    assert_eq!(c.cycle(RELEASED, tick), Ok(Some(SoundCommand::Stop)));
    assert_eq!(c.get_delay_timer(), 1);
    assert_eq!(c.cycle(RELEASED, 2 * tick), Ok(Some(SoundCommand::Stop)));
    assert_eq!(c.get_delay_timer(), 0);
    assert_eq!(c.cycle(RELEASED, 3 * tick), Ok(Some(SoundCommand::Stop)));
    assert_eq!(c.get_delay_timer(), 0);
}

#[test]
fn sound_timer_plays_while_running_and_stops_at_zero() {
    let mut c = Chip8::new();
    assert_eq!(c.load_rom(&[0x12, 0x00]), Ok(()));
    c.set_register(0, 1);
    assert_eq!(c.execute_instruction(Instruction::SetSoundTimer(0), 0), Ok(()));
    let tick = 1_000_000 / 15;
    assert_eq!(c.cycle(RELEASED, tick), Ok(Some(SoundCommand::Play)));
    assert_eq!(c.get_sound_timer(), 0);
    assert_eq!(c.cycle(RELEASED, 2 * tick), Ok(Some(SoundCommand::Stop)));
}

#[test]
fn get_key_busy_waits_until_a_key_is_pressed() {
    let mut c = Chip8::new();
    assert_eq!(c.load_rom(&[0xF0, 0x0A]), Ok(()));
    assert_eq!(c.cycle(RELEASED, 0), Ok(None));
    assert_eq!(c.get_pc(), 0x200);
    assert_eq!(c.cycle(RELEASED, 0), Ok(None));
    assert_eq!(c.get_pc(), 0x200);
    // Host slot 5 reports hex key 5.
    let mut keys = RELEASED;
    keys[5] = KeyState::Pressed;
    assert_eq!(c.cycle(keys, 0), Ok(None));
    assert_eq!(c.get_register(0), 5);
    assert_eq!(c.get_pc(), 0x202);
}

#[test]
fn get_key_latches_the_lowest_pressed_key() {
    let mut c = Chip8::new();
    assert_eq!(c.load_rom(&[0xF0, 0x0A]), Ok(()));
    let mut keys = RELEASED;
    // Host slot 13 reports hex key 0; host slot 5 reports hex key 5.
    keys[13] = KeyState::Pressed;
    keys[5] = KeyState::Pressed;
    assert_eq!(c.cycle(keys, 0), Ok(None));
    assert_eq!(c.get_register(0), 0);
    assert_eq!(c.get_pc(), 0x202);
}

#[test]
fn skip_key_pressed_consults_the_latched_keys() {
    let mut c = Chip8::new();
    assert_eq!(c.load_rom(&[0xE0, 0x9E, 0xE0, 0x9E]), Ok(()));
    c.set_register(0, 5);
    let mut keys = RELEASED;
    keys[5] = KeyState::Pressed;
    assert_eq!(c.cycle(keys, 0), Ok(None));
    assert_eq!(c.get_pc(), 0x204);
    let mut c2 = Chip8::new();
    assert_eq!(c2.load_rom(&[0xE0, 0x9E]), Ok(()));
    c2.set_register(0, 5);
    assert_eq!(c2.cycle(RELEASED, 0), Ok(None));
    assert_eq!(c2.get_pc(), 0x202);
}

#[test]
fn sixteen_nested_calls_succeed_and_the_seventeenth_overflows() {
    let mut c = Chip8::new();
    assert_eq!(c.load_rom(&[0x22, 0x00]), Ok(()));
    for _ in 0..16 {
        assert_eq!(c.cycle(RELEASED, 0), Ok(None));
    }
    assert_eq!(c.get_sp(), 16);
    assert_eq!(c.cycle(RELEASED, 0), Err(Chip8Error::StackOverflow));
    assert_eq!(c.get_sp(), 16);
}

#[test]
fn return_with_an_empty_stack_underflows() {
    let mut c = Chip8::new();
    assert_eq!(c.load_rom(&[0x00, 0xEE]), Ok(()));
    assert_eq!(c.cycle(RELEASED, 0), Err(Chip8Error::StackUnderflow));
}

#[test]
fn call_then_return_comes_back_to_the_next_instruction() {
    let mut c = Chip8::new();
    // 0x200: call 0x204; 0x202: jump 0x202; 0x204: return.
    assert_eq!(c.load_rom(&[0x22, 0x04, 0x12, 0x02, 0x00, 0xEE]), Ok(()));
    assert_eq!(c.cycle(RELEASED, 0), Ok(None));
    assert_eq!(c.get_pc(), 0x204);
    assert_eq!(c.get_sp(), 1);
    assert_eq!(c.cycle(RELEASED, 0), Ok(None));
    assert_eq!(c.get_pc(), 0x202);
    assert_eq!(c.get_sp(), 0);
}

#[test]
fn an_unassigned_opcode_stops_the_machine_with_its_pattern() {
    let mut c = Chip8::new();
    assert_eq!(c.load_rom(&[0x50, 0x01]), Ok(()));
    assert_eq!(c.cycle(RELEASED, 0), Err(Chip8Error::InvalidOpcode(0x5001)));
    assert_eq!(c.get_pc(), 0x200);
}

#[test]
fn fetching_past_the_end_of_memory_is_a_memory_fault() {
    let mut c = Chip8::new();
    assert_eq!(c.load_rom(&[0x1F, 0xFF]), Ok(()));
    assert_eq!(c.cycle(RELEASED, 0), Ok(None));
    assert_eq!(c.get_pc(), 0xFFF);
    assert_eq!(c.cycle(RELEASED, 0), Err(Chip8Error::MemoryFault));
}

#[test]
fn random_through_cycle_stays_within_the_mask() {
    let mut c = Chip8::new();
    assert_eq!(c.load_rom(&[0xC0, 0x07, 0x12, 0x00]), Ok(()));
    assert_eq!(c.cycle(RELEASED, 0), Ok(None));
    assert!(c.get_register(0) <= 0x07);
}

#[test]
fn display_flush_gate_needs_a_draw_and_an_elapsed_interval() {
    let mut c = Chip8::new();
    // One display interval is 1_000_000 / 45 microseconds.
    let gate = 1_000_000 / 45;
    assert!(!c.get_can_draw(gate));
    assert_eq!(c.load_rom(&[0x80]), Ok(()));
    assert_eq!(c.execute_instruction(Instruction::LoadI(0x200), 0), Ok(()));
    assert_eq!(c.execute_instruction(Instruction::Draw(0, 1, 1), 0), Ok(()));
    assert!(!c.get_can_draw(gate - 1));
    assert!(c.get_can_draw(gate));
    c.set_can_draw(false, 50_000);
    assert!(!c.get_can_draw(50_000 + gate));
    assert_eq!(c.execute_instruction(Instruction::Draw(0, 1, 1), 0), Ok(()));
    assert!(!c.get_can_draw(50_000 + gate - 1));
    assert!(c.get_can_draw(50_000 + gate));
}

#[test]
fn remaining_cycle_budget_counts_down_to_zero() {
    let mut c = Chip8::new();
    // One instruction cycle is 1_000_000 / 750 microseconds.
    let budget = 1_000_000 / 750;
    c.init_cycle(1000);
    assert_eq!(c.remaining_cycle_micros(1000), budget);
    assert_eq!(c.remaining_cycle_micros(1500), budget - 500);
    assert_eq!(c.remaining_cycle_micros(1000 + budget), 0);
    assert_eq!(c.remaining_cycle_micros(9999), 0);
}

#[test]
fn sync_anchors_the_timer_gate() {
    let mut c = Chip8::new();
    assert_eq!(c.load_rom(&[0x12, 0x00]), Ok(()));
    c.set_register(0, 1);
    assert_eq!(c.execute_instruction(Instruction::SetDelayTimer(0), 0), Ok(()));
    c.sync(1_000_000);
    let tick = 1_000_000 / 15;
    assert_eq!(c.cycle(RELEASED, 1_000_000 + tick - 1), Ok(None));
    assert_eq!(c.get_delay_timer(), 1);
    assert_eq!(c.cycle(RELEASED, 1_000_000 + tick), Ok(Some(SoundCommand::Stop)));
    assert_eq!(c.get_delay_timer(), 0);
}
