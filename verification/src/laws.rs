//! Laws of the machine semantics that span more than one step: the XOR
//! draw toggle, the store/load round trip, timer decay, the GetKey busy
//! wait, and the call-stack protocol. Each is proved once and for all over
//! the spec-level transition functions that the executable methods are
//! proved to implement.

use vstd::prelude::*;

use crate::error::Chip8Error;
use crate::instruction::Instruction;
use crate::instruction::spec_decode;
use crate::keyboard::KeyState;
use crate::machine::DISPLAY_SIZE;
use crate::machine::MEMORY_SIZE;
use crate::machine::Machine;
use crate::machine::spec_cell_collides;
use crate::machine::spec_cell_covered;
use crate::machine::spec_cycle;
use crate::machine::spec_draw;
use crate::machine::spec_draw_collision;
use crate::machine::spec_draw_fault;
use crate::machine::spec_draw_rows;
use crate::machine::spec_execute;
use crate::machine::spec_fetch;
use crate::machine::spec_first_pressed;
use crate::machine::spec_get_key;
use crate::machine::spec_load_memory;
use crate::machine::spec_pc_minus2;
use crate::machine::spec_ret;
use crate::machine::spec_sprite_bit;
use crate::machine::spec_store_memory;
use crate::machine::spec_update_keys;
use crate::machine::spec_update_timers;

verus! {

/// Drawing a one-row, one-pixel sprite (sprite byte 0x80) at a blank cell
/// sets that cell and reports no collision; drawing the same sprite again
/// at the same coordinates turns the cell back off, reports the collision
/// in VF, and restores the display to what it was before the first draw.
pub proof fn lemma_draw_twice_toggles_pixel(m: Machine, x: int, y: int)
    requires
        m.inv(),
        0 <= x < 16,
        0 <= y < 16,
        x != 15,
        y != 15,
        m.i < MEMORY_SIZE,
        m.memory[m.i as int] == 0x80,
        m.display[(m.registers[y] % 32) * 64 + (m.registers[x] % 64)] == 0,
    ensures
        ({
            let px = (m.registers[y] % 32) * 64 + (m.registers[x] % 64);
            &&& spec_draw(m, x, y, 1) matches Ok(m1)
            &&& spec_draw(m, x, y, 1)->Ok_0.display[px] == 1
            &&& spec_draw(m, x, y, 1)->Ok_0.registers[15] == 0
            &&& spec_draw(spec_draw(m, x, y, 1)->Ok_0, x, y, 1) matches Ok(m2)
            &&& spec_draw(spec_draw(m, x, y, 1)->Ok_0, x, y, 1)->Ok_0.display[px] == 0
            &&& spec_draw(spec_draw(m, x, y, 1)->Ok_0, x, y, 1)->Ok_0.registers[15] == 1
            &&& spec_draw(spec_draw(m, x, y, 1)->Ok_0, x, y, 1)->Ok_0.display == m.display
        }),
{
    let x0 = (m.registers[x] % 64) as int;
    let y0 = (m.registers[y] % 32) as int;
    let px = y0 * 64 + x0;
    assert(0 <= x0 < 64 && 0 <= y0 < 32);
    assert(px / 64 == y0 && px % 64 == x0);
    assert(0 <= px < DISPLAY_SIZE);
    assert(forall|s: u8| s <= 6 ==> (0x80u8 >> s) & 1 == 0) by (bit_vector);
    assert((0x80u8 >> 7u8) & 1 == 1) by (bit_vector);
    assert(spec_draw_rows(y0, 1) == 1);
    assert(!spec_draw_fault(m, y0, 1));
    let m1 = spec_draw(m, x, y, 1)->Ok_0;

    assert forall|k: int|
        0 <= k < DISPLAY_SIZE && spec_cell_covered(x0, y0, 1, k) implies spec_sprite_bit(
        m,
        k / 64 - y0,
        k % 64 - x0,
    ) == (if k == px {
        1u8
    } else {
        0u8
    }) by {
        let c = k % 64 - x0;
        assert(k / 64 == y0);
        assert(k == 64 * (k / 64) + k % 64);
        assert(spec_sprite_bit(m, 0, c) == (0x80u8 >> ((7 - c) as u8)) & 1);
        if k == px {
            assert(c == 0);
            assert((0x80u8 >> ((7 - 0) as u8)) & 1 == 1) by (bit_vector);
        } else {
            assert(1 <= c < 8);
            assert(((7 - c) as u8) <= 6);
        }
    }

    assert(!spec_draw_collision(m, x0, y0, 1)) by {
        if spec_draw_collision(m, x0, y0, 1) {
            let w = choose|idx: int|
                0 <= idx < DISPLAY_SIZE && spec_cell_covered(x0, y0, 1, idx)
                    && spec_cell_collides(m, x0, y0, idx);
            assert(spec_sprite_bit(m, w / 64 - y0, w % 64 - x0) == 1);
            assert(w == px);
            assert(m.display[px] == 0);
        }
    }
    assert(m1.registers[15] == 0);
    assert(spec_cell_covered(x0, y0, 1, px));
    assert(m1.display[px] == 1);
    assert(m1.memory == m.memory && m1.i == m.i);
    assert(m1.registers[x] == m.registers[x] && m1.registers[y] == m.registers[y]);

    // The second draw sees the same start cell and the same sprite byte.
    assert(!spec_draw_fault(m1, y0, 1));
    let m2 = spec_draw(m1, x, y, 1)->Ok_0;
    assert forall|k: int|
        0 <= k < DISPLAY_SIZE && spec_cell_covered(x0, y0, 1, k) implies spec_sprite_bit(
        m1,
        k / 64 - y0,
        k % 64 - x0,
    ) == (if k == px {
        1u8
    } else {
        0u8
    }) by {
        let c = k % 64 - x0;
        assert(k / 64 == y0);
        assert(k == 64 * (k / 64) + k % 64);
        assert(spec_sprite_bit(m1, 0, c) == (0x80u8 >> ((7 - c) as u8)) & 1);
        if k == px {
            assert(c == 0);
            assert((0x80u8 >> ((7 - 0) as u8)) & 1 == 1) by (bit_vector);
        } else {
            assert(1 <= c < 8);
            assert(((7 - c) as u8) <= 6);
        }
    }
    assert(spec_cell_collides(m1, x0, y0, px));
    assert(spec_draw_collision(m1, x0, y0, 1));
    assert(m2.registers[15] == 1);
    assert(m2.display[px] == 0);
    assert(m2.display =~= m.display) by {
        assert forall|k: int| 0 <= k < DISPLAY_SIZE implies m2.display[k] == m.display[k] by {
            if spec_cell_covered(x0, y0, 1, k) && k != px {
                assert(m1.display[k] == m.display[k]);
            }
        }
    }
}

/// XOR compositing is its own inverse: drawing any sprite twice at the
/// same coordinates restores the display exactly (the flag register and
/// the pending-draw flag may differ). The coordinate registers must not be
/// VF, which the first draw overwrites.
pub proof fn lemma_draw_twice_restores_display(m: Machine, x: int, y: int, n: int)
    requires
        m.inv(),
        0 <= x < 16,
        0 <= y < 16,
        x != 15,
        y != 15,
        0 <= n < 16,
        spec_draw(m, x, y, n) is Ok,
    ensures
        spec_draw(spec_draw(m, x, y, n)->Ok_0, x, y, n) is Ok,
        spec_draw(spec_draw(m, x, y, n)->Ok_0, x, y, n)->Ok_0.display == m.display,
{
    let x0 = (m.registers[x] % 64) as int;
    let y0 = (m.registers[y] % 32) as int;
    let m1 = spec_draw(m, x, y, n)->Ok_0;
    assert(m1.registers[x] == m.registers[x] && m1.registers[y] == m.registers[y]);
    assert(m1.memory == m.memory && m1.i == m.i);
    assert(!spec_draw_fault(m1, y0, n));
    let m2 = spec_draw(m1, x, y, n)->Ok_0;
    assert(m2.display =~= m.display) by {
        assert forall|k: int| 0 <= k < DISPLAY_SIZE implies m2.display[k] == m.display[k] by {
            if spec_cell_covered(x0, y0, n, k) {
                assert(spec_sprite_bit(m1, k / 64 - y0, k % 64 - x0) == spec_sprite_bit(
                    m,
                    k / 64 - y0,
                    k % 64 - x0,
                ));
                assert(0 <= m.display[k] <= 1);
            }
        }
    }
}

/// Storing V0..=Vx at I and later loading V0..=Vx from the same I restores
/// the stored register values exactly, whatever happened to the registers
/// in between, so long as memory and I were left alone.
pub proof fn lemma_store_load_round_trip(m: Machine, mid: Machine, x: int)
    requires
        m.inv(),
        mid.inv(),
        0 <= x < 16,
        m.i + x + 1 <= MEMORY_SIZE,
        mid.memory == spec_store_memory(m, x)->Ok_0.memory,
        mid.i == m.i,
    ensures
        spec_store_memory(m, x) is Ok,
        spec_load_memory(mid, x) is Ok,
        forall|r: int|
            0 <= r <= x ==> spec_load_memory(mid, x)->Ok_0.registers[r] == m.registers[r],
{
    let stored = spec_store_memory(m, x)->Ok_0;
    let loaded = spec_load_memory(mid, x)->Ok_0;
    assert forall|r: int| 0 <= r <= x implies loaded.registers[r] == m.registers[r] by {
        assert(mid.memory[mid.i + r] == stored.memory[m.i + r]);
        assert(stored.memory[m.i + r] == m.registers[r]);
    }
}

/// A timer tick steps each counter toward zero and never below it: a zero
/// timer stays zero at this tick and therefore at every later one.
pub proof fn lemma_timer_decay(m: Machine, now: u64)
    ensures
        spec_update_timers(m, now).0.delay_timer <= m.delay_timer,
        m.delay_timer == 0 ==> spec_update_timers(m, now).0.delay_timer == 0,
        spec_update_timers(m, now).0.sound_timer <= m.sound_timer,
        m.sound_timer == 0 ==> spec_update_timers(m, now).0.sound_timer == 0,
{
}

/// The GetKey busy wait, across one whole cycle whose fetched instruction
/// is GetKey(x): with no key pressed the program counter ends exactly where
/// it began (the fetch advance is undone, a net no-op), and the registers
/// are untouched; with a key pressed, the lowest-numbered pressed key lands
/// in Vx and the program counter advances normally by 2.
pub proof fn lemma_get_key_busy_wait(m: Machine, ks: Seq<KeyState>, now: u64, rnd: u8, x: u8)
    requires
        m.inv(),
        ks.len() == 16,
        m.pc + 1 < MEMORY_SIZE,
        spec_decode(
            ((m.memory[m.pc as int] as u16) << 8u16) | (m.memory[m.pc + 1] as u16),
        ) == Ok::<Instruction, Chip8Error>(Instruction::GetKey(x)),
        x < 16,
    ensures
        spec_cycle(m, ks, now, rnd).1 is Ok,
        ({
            let after = spec_cycle(m, ks, now, rnd).0;
            let keys = spec_update_keys(m, ks).keys;
            &&& spec_first_pressed(keys, 0) == 16 ==> after.pc == m.pc && after.registers
                == m.registers
            &&& spec_first_pressed(keys, 0) < 16 ==> after.pc == m.pc + 2 && after.registers
                == m.registers.update(x as int, spec_first_pressed(keys, 0) as u8)
        }),
{
    let m1 = spec_update_keys(m, ks);
    assert(m1.memory == m.memory && m1.pc == m.pc && m1.registers == m.registers);
    let m2 = spec_fetch(m1)->Ok_0;
    assert(m2.pc == m.pc + 2 && m2.current_instruction == Instruction::GetKey(x));
    let m3 = spec_get_key(m2, x as int);
    assert(spec_execute(m2, Instruction::GetKey(x), rnd) == Ok::<Machine, Chip8Error>(m3));
    let k = spec_first_pressed(m2.keys, 0);
    if k < 16 {
        assert(m3.pc == m.pc + 2);
        assert(m3.registers == m.registers.update(x as int, k as u8));
    } else {
        assert(m3.pc == spec_pc_minus2((m.pc + 2) as u16));
        assert(m3.pc == m.pc);
        assert(m3.registers == m.registers);
    }
    let ticked = spec_update_timers(m3, now);
    assert(ticked.0.pc == m3.pc && ticked.0.registers == m3.registers);
}

/// The call-stack protocol: Call succeeds exactly while fewer than 16
/// frames are in use and fails with StackOverflow once all 16 are taken;
/// Return fails with StackUnderflow exactly when no frame is in use; and a
/// Return after a successful Call restores the program counter to the
/// instruction after the call site and the stack pointer to its old depth.
pub proof fn lemma_call_stack(m: Machine, nnn: u16, rnd: u8)
    requires
        m.inv(),
    ensures
        spec_execute(m, Instruction::Call(nnn), rnd) is Ok <==> m.sp < 16,
        m.sp == 16 ==> spec_execute(m, Instruction::Call(nnn), rnd) == Err::<
            Machine,
            Chip8Error,
        >(Chip8Error::StackOverflow),
        spec_execute(m, Instruction::Ret, rnd) is Ok <==> m.sp > 0,
        m.sp == 0 ==> spec_execute(m, Instruction::Ret, rnd) == Err::<Machine, Chip8Error>(
            Chip8Error::StackUnderflow,
        ),
        m.sp < 16 ==> ({
            let called = spec_execute(m, Instruction::Call(nnn), rnd)->Ok_0;
            &&& called.pc == nnn
            &&& called.sp == m.sp + 1
            &&& spec_ret(called) is Ok
            &&& spec_ret(called)->Ok_0.pc == m.pc
            &&& spec_ret(called)->Ok_0.sp == m.sp
        }),
{
}

} // verus!
