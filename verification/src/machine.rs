//! The machine state and its semantics.
//!
//! `Chip8` owns the 4096-byte memory, the sixteen 8-bit registers, the
//! sixteen-entry call stack, the 64x32 framebuffer, the two countdown
//! timers, the key latch, and the pacing state of the three clock domains
//! (instruction cycle, timer tick, display flush).
//!
//! Its mathematical view is the ghost struct [`Machine`]; every mutating
//! method is specified as a transition function on that view and proved to
//! implement it exactly. Wall time enters only as an argument: each method
//! that is paced takes the current reading of the host's monotonic clock in
//! microseconds, so the semantics are a pure function of state, inputs, and
//! that reading.

use vstd::prelude::*;

use crate::error::Chip8Error;
use crate::instruction::Instruction;
use crate::instruction::spec_decode;
use crate::keyboard::KeyState;

verus! {

/// Number of keypad keys.
pub const KEY_SIZE: usize = 16;

/// Number of return-address slots on the call stack.
pub const STACK_SIZE: usize = 16;

/// Bytes of addressable memory.
pub const MEMORY_SIZE: usize = 4096;

/// Width of the framebuffer in pixels.
pub const DISPLAY_WIDTH: usize = 64;

/// Height of the framebuffer in pixels.
pub const DISPLAY_HEIGHT: usize = 32;

/// Cells of the framebuffer, row-major.
pub const DISPLAY_SIZE: usize = DISPLAY_WIDTH * DISPLAY_HEIGHT;

/// Number of general-purpose registers.
pub const REGISTERS_SIZE: usize = 16;

/// Where ROM bytes are loaded, and the reset program counter.
pub const ROM_START_ADDRESS: usize = 0x200;

/// Largest ROM that fits between the reset address and the end of memory.
pub const ROM_CAPACITY: usize = MEMORY_SIZE - ROM_START_ADDRESS;

/// Bytes of the font table: 16 glyphs of 5 bytes, stored from address 0.
pub const FONT_SIZE: usize = 80;

/// Instructions executed per second.
pub const CYCLE_HZ: u64 = 750;

/// Timer decrements per second.
pub const TIMER_HZ: u64 = 15;

/// Display flush opportunities per second.
pub const DISPLAY_HZ: u64 = 45;

/// Microseconds of one instruction cycle.
pub const CYCLE_MICROS: u64 = 1_000_000 / CYCLE_HZ;

/// Microseconds of one timer tick.
pub const TIMER_MICROS: u64 = 1_000_000 / TIMER_HZ;

/// Microseconds of one display-flush interval.
pub const DISPLAY_MICROS: u64 = 1_000_000 / DISPLAY_HZ;

/// The mathematical view of the whole machine: every field of [`Chip8`] as
/// a plain value or a sequence. Instruction semantics are stated as
/// functions from `Machine` to `Machine`.
#[verifier::ext_equal]
pub ghost struct Machine {
    /// Index register I.
    pub i: u16,
    /// Program counter.
    pub pc: u16,
    /// Stack pointer: number of frames in use, in `[0, 16]`.
    pub sp: u16,
    /// Keypad state, indexed by hex nibble.
    pub keys: Seq<KeyState>,
    /// Return-address stack; only the first `sp` entries are live.
    pub stack: Seq<u16>,
    /// Addressable memory.
    pub memory: Seq<u8>,
    /// Framebuffer cells, row-major, each 0 or 1.
    pub display: Seq<u8>,
    /// General registers V0..VF.
    pub registers: Seq<u8>,
    /// Delay timer counter.
    pub delay_timer: u8,
    /// Sound timer counter.
    pub sound_timer: u8,
    /// Whether a draw has happened since the display was last flushed.
    pub can_draw: bool,
    /// Whether shift instructions first copy Vy into Vx.
    pub shift_quirk: bool,
    /// Clock reading at the start of the current instruction cycle.
    pub cycle_start: u64,
    /// Clock reading of the last timer tick.
    pub timer_start: u64,
    /// Clock reading of the last display flush.
    pub display_start: u64,
    /// Microseconds per instruction cycle.
    pub cycle_duration: u64,
    /// Microseconds per timer tick.
    pub timer_duration: u64,
    /// Microseconds per display-flush interval.
    pub display_duration: u64,
    /// The most recently fetched instruction.
    pub current_instruction: Instruction,
}

impl Machine {
    /// Well-formedness: the fixed sizes of the state arrays, the stack
    /// pointer bound, and the 0/1 range of framebuffer cells.
    pub open spec fn inv(self) -> bool {
        &&& self.keys.len() == KEY_SIZE
        &&& self.stack.len() == STACK_SIZE
        &&& self.memory.len() == MEMORY_SIZE
        &&& self.display.len() == DISPLAY_SIZE
        &&& self.registers.len() == REGISTERS_SIZE
        &&& self.sp <= STACK_SIZE
        &&& forall|k: int| 0 <= k < DISPLAY_SIZE ==> self.display[k] <= 1
    }
}

/// The font table: 16 fixed 5-byte glyphs for the hex digits 0 to F.
pub open spec fn spec_font_data() -> Seq<u8> {
    seq![
        0xF0u8, 0x90, 0x90, 0x90, 0xF0,  // 0
        0x20, 0x60, 0x20, 0x20, 0x70,  // 1
        0xF0, 0x10, 0xF0, 0x80, 0xF0,  // 2
        0xF0, 0x10, 0xF0, 0x10, 0xF0,  // 3
        0x90, 0x90, 0xF0, 0x10, 0x10,  // 4
        0xF0, 0x80, 0xF0, 0x10, 0xF0,  // 5
        0xF0, 0x80, 0xF0, 0x90, 0xF0,  // 6
        0xF0, 0x10, 0x20, 0x40, 0x40,  // 7
        0xF0, 0x90, 0xF0, 0x90, 0xF0,  // 8
        0xF0, 0x90, 0xF0, 0x10, 0xF0,  // 9
        0xF0, 0x90, 0xF0, 0x90, 0x90,  // A
        0xE0, 0x90, 0xE0, 0x90, 0xE0,  // B
        0xF0, 0x80, 0x80, 0x80, 0xF0,  // C
        0xE0, 0x90, 0x90, 0x90, 0xE0,  // D
        0xF0, 0x80, 0xF0, 0x80, 0xF0,  // E
        0xF0, 0x80, 0xF0, 0x80, 0x80,  // F
    ]
}

/// Memory at reset: the font table in the first 80 bytes, zero elsewhere.
pub open spec fn spec_initial_memory() -> Seq<u8> {
    Seq::new(
        MEMORY_SIZE as nat,
        |k: int| if k < FONT_SIZE { spec_font_data()[k] } else { 0u8 },
    )
}

/// The machine at reset: memory zeroed except the font table, registers and
/// stack zeroed, all keys released, PC at the ROM start address, and all
/// three clock domains anchored at clock reading 0.
pub open spec fn spec_new() -> Machine {
    Machine {
        i: 0,
        pc: ROM_START_ADDRESS as u16,
        sp: 0,
        keys: Seq::new(KEY_SIZE as nat, |k: int| KeyState::Released),
        stack: Seq::new(STACK_SIZE as nat, |k: int| 0u16),
        memory: spec_initial_memory(),
        display: Seq::new(DISPLAY_SIZE as nat, |k: int| 0u8),
        registers: Seq::new(REGISTERS_SIZE as nat, |k: int| 0u8),
        delay_timer: 0,
        sound_timer: 0,
        can_draw: false,
        shift_quirk: false,
        cycle_start: 0,
        timer_start: 0,
        display_start: 0,
        cycle_duration: CYCLE_MICROS,
        timer_duration: TIMER_MICROS,
        display_duration: DISPLAY_MICROS,
        current_instruction: Instruction::Clear,
    }
}

/// Memory after a ROM image is loaded verbatim at the ROM start address.
pub open spec fn spec_rom_memory(mem: Seq<u8>, rom: Seq<u8>) -> Seq<u8> {
    Seq::new(
        MEMORY_SIZE as nat,
        |k: int| if ROM_START_ADDRESS <= k < ROM_START_ADDRESS + rom.len() {
            rom[k - ROM_START_ADDRESS]
        } else {
            mem[k]
        },
    )
}

/// The display may be flushed: a draw is pending and the display-rate
/// interval has elapsed since the last flush.
pub open spec fn spec_can_draw(m: Machine, now: u64) -> bool {
    m.can_draw && now >= m.display_start && now - m.display_start >= m.display_duration
}

/// Microseconds left of the current instruction cycle's budget.
pub open spec fn spec_remaining_cycle(m: Machine, now: u64) -> u64 {
    if now < m.cycle_start {
        m.cycle_duration
    } else if now - m.cycle_start < m.cycle_duration {
        (m.cycle_duration - (now - m.cycle_start)) as u64
    } else {
        0u64
    }
}

/// The virtual machine. See the module documentation.
pub struct Chip8 {
    i: u16,
    pc: u16,
    sp: u16,
    keys: Vec<KeyState>,
    stack: Vec<u16>,
    memory: Vec<u8>,
    display: Vec<u8>,
    registers: Vec<u8>,
    delay_timer: u8,
    sound_timer: u8,
    can_draw: bool,
    shift_quirk: bool,
    cycle_start: u64,
    timer_start: u64,
    display_start: u64,
    cycle_duration: u64,
    timer_duration: u64,
    display_duration: u64,
    current_instruction: Instruction,
}

impl View for Chip8 {
    type V = Machine;

    closed spec fn view(&self) -> Machine {
        Machine {
            i: self.i,
            pc: self.pc,
            sp: self.sp,
            keys: self.keys@,
            stack: self.stack@,
            memory: self.memory@,
            display: self.display@,
            registers: self.registers@,
            delay_timer: self.delay_timer,
            sound_timer: self.sound_timer,
            can_draw: self.can_draw,
            shift_quirk: self.shift_quirk,
            cycle_start: self.cycle_start,
            timer_start: self.timer_start,
            display_start: self.display_start,
            cycle_duration: self.cycle_duration,
            timer_duration: self.timer_duration,
            display_duration: self.display_duration,
            current_instruction: self.current_instruction,
        }
    }
}

/// The font table as bytes, for the start of memory.
fn font_data() -> (r: Vec<u8>)
    ensures
        r@ == spec_font_data(),
{
    let mut r: Vec<u8> = Vec::new();
    r.push(0xF0);
    r.push(0x90);
    r.push(0x90);
    r.push(0x90);
    r.push(0xF0);
    r.push(0x20);
    r.push(0x60);
    r.push(0x20);
    r.push(0x20);
    r.push(0x70);
    r.push(0xF0);
    r.push(0x10);
    r.push(0xF0);
    r.push(0x80);
    r.push(0xF0);
    r.push(0xF0);
    r.push(0x10);
    r.push(0xF0);
    r.push(0x10);
    r.push(0xF0);
    r.push(0x90);
    r.push(0x90);
    r.push(0xF0);
    r.push(0x10);
    r.push(0x10);
    r.push(0xF0);
    r.push(0x80);
    r.push(0xF0);
    r.push(0x10);
    r.push(0xF0);
    r.push(0xF0);
    r.push(0x80);
    r.push(0xF0);
    r.push(0x90);
    r.push(0xF0);
    r.push(0xF0);
    r.push(0x10);
    r.push(0x20);
    r.push(0x40);
    r.push(0x40);
    r.push(0xF0);
    r.push(0x90);
    r.push(0xF0);
    r.push(0x90);
    r.push(0xF0);
    r.push(0xF0);
    r.push(0x90);
    r.push(0xF0);
    r.push(0x10);
    r.push(0xF0);
    r.push(0xF0);
    r.push(0x90);
    r.push(0xF0);
    r.push(0x90);
    r.push(0x90);
    r.push(0xE0);
    r.push(0x90);
    r.push(0xE0);
    r.push(0x90);
    r.push(0xE0);
    r.push(0xF0);
    r.push(0x80);
    r.push(0x80);
    r.push(0x80);
    r.push(0xF0);
    r.push(0xE0);
    r.push(0x90);
    r.push(0x90);
    r.push(0x90);
    r.push(0xE0);
    r.push(0xF0);
    r.push(0x80);
    r.push(0xF0);
    r.push(0x80);
    r.push(0xF0);
    r.push(0xF0);
    r.push(0x80);
    r.push(0xF0);
    r.push(0x80);
    r.push(0x80);
    proof {
        assert(r@ =~= spec_font_data());
    }
    r
}

impl Chip8 {
    /// Well-formedness of the machine state.
    pub open spec fn wf(self) -> bool {
        self@.inv()
    }

    /// Build the machine at reset.
    pub fn new() -> (c: Chip8)
        ensures
            c.wf(),
            c@ == spec_new(),
    {
        let mut memory = font_data();
        while memory.len() < MEMORY_SIZE
            invariant
                FONT_SIZE <= memory@.len() <= MEMORY_SIZE,
                forall|k: int| 0 <= k < FONT_SIZE ==> memory@[k] == spec_font_data()[k],
                forall|k: int| FONT_SIZE <= k < memory@.len() ==> memory@[k] == 0u8,
            decreases MEMORY_SIZE - memory@.len(),
        {
            memory.push(0);
        }
        let mut keys: Vec<KeyState> = Vec::new();
        while keys.len() < KEY_SIZE
            invariant
                keys@.len() <= KEY_SIZE,
                forall|k: int| 0 <= k < keys@.len() ==> keys@[k] == KeyState::Released,
            decreases KEY_SIZE - keys@.len(),
        {
            keys.push(KeyState::Released);
        }
        let mut stack: Vec<u16> = Vec::new();
        while stack.len() < STACK_SIZE
            invariant
                stack@.len() <= STACK_SIZE,
                forall|k: int| 0 <= k < stack@.len() ==> stack@[k] == 0u16,
            decreases STACK_SIZE - stack@.len(),
        {
            stack.push(0);
        }
        let mut display: Vec<u8> = Vec::new();
        while display.len() < DISPLAY_SIZE
            invariant
                display@.len() <= DISPLAY_SIZE,
                forall|k: int| 0 <= k < display@.len() ==> display@[k] == 0u8,
            decreases DISPLAY_SIZE - display@.len(),
        {
            display.push(0);
        }
        let mut registers: Vec<u8> = Vec::new();
        while registers.len() < REGISTERS_SIZE
            invariant
                registers@.len() <= REGISTERS_SIZE,
                forall|k: int| 0 <= k < registers@.len() ==> registers@[k] == 0u8,
            decreases REGISTERS_SIZE - registers@.len(),
        {
            registers.push(0);
        }
        let c = Chip8 {
            i: 0,
            pc: ROM_START_ADDRESS as u16,
            sp: 0,
            keys,
            stack,
            memory,
            display,
            registers,
            delay_timer: 0,
            sound_timer: 0,
            can_draw: false,
            shift_quirk: false,
            cycle_start: 0,
            timer_start: 0,
            display_start: 0,
            cycle_duration: CYCLE_MICROS,
            timer_duration: TIMER_MICROS,
            display_duration: DISPLAY_MICROS,
            current_instruction: Instruction::Clear,
        };
        proof {
            assert(c@.memory =~= spec_initial_memory());
            assert(c@.keys =~= spec_new().keys);
            assert(c@.stack =~= spec_new().stack);
            assert(c@.display =~= spec_new().display);
            assert(c@.registers =~= spec_new().registers);
            assert(c@ =~= spec_new());
        }
        c
    }

    /// Load a ROM image: the bytes are copied verbatim to memory starting at
    /// the ROM start address. An image longer than the 3584 bytes that fit
    /// is rejected whole with `RomTooLarge` and memory is untouched.
    pub fn load_rom(&mut self, rom: &[u8]) -> (r: Result<(), Chip8Error>)
        requires
            old(self).wf(),
        ensures
            final(self).wf(),
            rom@.len() <= ROM_CAPACITY ==> r is Ok && final(self)@ == (Machine {
                memory: spec_rom_memory(old(self)@.memory, rom@),
                ..old(self)@
            }),
            rom@.len() > ROM_CAPACITY ==> r == Err::<(), Chip8Error>(Chip8Error::RomTooLarge)
                && final(self)@ == old(self)@,
    {
        if rom.len() > ROM_CAPACITY {
            return Err(Chip8Error::RomTooLarge);
        }
        let ghost m0 = self@;
        let mut idx: usize = 0;
        while idx < rom.len()
            invariant
                self@.memory.len() == MEMORY_SIZE,
                m0.memory.len() == MEMORY_SIZE,
                idx <= rom@.len() <= ROM_CAPACITY,
                forall|k: int| ROM_START_ADDRESS <= k < ROM_START_ADDRESS + idx
                    ==> self@.memory[k] == rom@[k - ROM_START_ADDRESS],
                forall|k: int| 0 <= k < MEMORY_SIZE
                    && !(ROM_START_ADDRESS <= k < ROM_START_ADDRESS + idx)
                    ==> self@.memory[k] == m0.memory[k],
                self@ == (Machine { memory: self@.memory, ..m0 }),
            decreases rom@.len() - idx,
        {
            let byte = rom[idx];
            self.memory.set(ROM_START_ADDRESS + idx, byte);
            idx = idx + 1;
        }
        proof {
            assert(self@.memory =~= spec_rom_memory(m0.memory, rom@));
            assert(self@ =~= (Machine { memory: spec_rom_memory(m0.memory, rom@), ..m0 }));
        }
        Ok(())
    }

    /// The framebuffer: 64x32 cells, row-major, each 0 or 1. Read-only; the
    /// rendering collaborator must not retain it across cycles.
    pub fn get_display(&self) -> (r: &Vec<u8>)
        ensures
            r@ == self@.display,
    {
        &self.display
    }

    /// Whether the renderer may flush now: a draw is pending and the
    /// display-rate interval has elapsed since the last flush.
    pub fn get_can_draw(&self, now: u64) -> (r: bool)
        ensures
            r == spec_can_draw(self@, now),
    {
        self.can_draw && now >= self.display_start && now - self.display_start >= self.display_duration
    }

    /// Set or clear the pending-draw flag. Clearing it (after a flush) also
    /// restarts the display-rate interval at the given clock reading.
    pub fn set_can_draw(&mut self, can_draw: bool, now: u64)
        ensures
            final(self)@ == (Machine {
                can_draw,
                display_start: if can_draw { old(self)@.display_start } else { now },
                ..old(self)@
            }),
    {
        if !can_draw {
            self.display_start = now;
        }
        self.can_draw = can_draw;
    }

    /// Configure the shift quirk: whether Shr/Shl first copy Vy into Vx.
    pub fn set_shift_quirk(&mut self, quirk: bool)
        ensures
            final(self)@ == (Machine { shift_quirk: quirk, ..old(self)@ }),
    {
        self.shift_quirk = quirk;
    }

    /// Anchor the timer and display rate gates at the given clock reading,
    /// so the first intervals are measured from here.
    pub fn sync(&mut self, now: u64)
        ensures
            final(self)@ == (Machine { timer_start: now, display_start: now, ..old(self)@ }),
    {
        self.timer_start = now;
        self.display_start = now;
    }

    /// Mark the start of an instruction cycle at the given clock reading.
    pub fn init_cycle(&mut self, now: u64)
        ensures
            final(self)@ == (Machine { cycle_start: now, ..old(self)@ }),
    {
        self.cycle_start = now;
    }

    /// Microseconds the host should still sleep to fill this cycle's budget.
    pub fn remaining_cycle_micros(&self, now: u64) -> (r: u64)
        ensures
            r == spec_remaining_cycle(self@, now),
    {
        if now < self.cycle_start {
            self.cycle_duration
        } else if now - self.cycle_start < self.cycle_duration {
            self.cycle_duration - (now - self.cycle_start)
        } else {
            0
        }
    }

    /// The program counter.
    pub fn get_pc(&self) -> (r: u16)
        ensures
            r == self@.pc,
    {
        self.pc
    }

    /// The index register I.
    pub fn get_i(&self) -> (r: u16)
        ensures
            r == self@.i,
    {
        self.i
    }

    /// The stack pointer: how many call frames are in use.
    pub fn get_sp(&self) -> (r: u16)
        ensures
            r == self@.sp,
    {
        self.sp
    }

    /// The delay timer counter.
    pub fn get_delay_timer(&self) -> (r: u8)
        ensures
            r == self@.delay_timer,
    {
        self.delay_timer
    }

    /// The sound timer counter.
    pub fn get_sound_timer(&self) -> (r: u8)
        ensures
            r == self@.sound_timer,
    {
        self.sound_timer
    }

    /// Register Vx.
    pub fn get_register(&self, x: u8) -> (r: u8)
        requires
            self.wf(),
            x < 16,
        ensures
            r == self@.registers[x as int],
    {
        self.registers[x as usize]
    }

    /// Overwrite register Vx.
    pub fn set_register(&mut self, x: u8, value: u8)
        requires
            old(self).wf(),
            x < 16,
        ensures
            final(self).wf(),
            final(self)@ == (Machine {
                registers: old(self)@.registers.update(x as int, value),
                ..old(self)@
            }),
    {
        self.registers.set(x as usize, value);
    }

    /// The byte at a memory address.
    pub fn read_memory(&self, addr: u16) -> (r: u8)
        requires
            self.wf(),
            addr < MEMORY_SIZE,
        ensures
            r == self@.memory[addr as int],
    {
        self.memory[addr as usize]
    }
}

/// What the audio collaborator should do after a timer tick: the tone plays
/// exactly while the sound timer is nonzero.
#[derive(Clone, Copy, Debug, PartialEq, Eq, Structural)]
pub enum SoundCommand {
    /// The sound timer was running: play the tone.
    Play,
    /// The sound timer has reached zero: stop the tone.
    Stop,
}

/// The program counter advanced by one instruction, wrapping at the 16-bit
/// boundary. Through `cycle` the wrap is unreachable, because a fetch bounds
/// the program counter by the memory size first.
pub open spec fn spec_pc_plus2(pc: u16) -> u16 {
    if pc + 2 <= 0xFFFF {
        (pc + 2) as u16
    } else {
        (pc + 2 - 0x10000) as u16
    }
}

/// The program counter rewound by one instruction, wrapping at zero.
pub open spec fn spec_pc_minus2(pc: u16) -> u16 {
    if pc >= 2 {
        (pc - 2) as u16
    } else {
        (pc + 0xFFFE) as u16
    }
}

/// An 8-bit wrapping sum.
pub open spec fn spec_wrap_add_u8(a: u8, b: u8) -> u8 {
    if a + b < 256 {
        (a + b) as u8
    } else {
        (a + b - 256) as u8
    }
}

/// Clear: the display is zeroed.
pub open spec fn spec_clear(m: Machine) -> Machine {
    Machine { display: Seq::new(DISPLAY_SIZE as nat, |k: int| 0u8), ..m }
}

/// Return: pop the top return address into the program counter; with no
/// frame in use this is a `StackUnderflow` and the machine is unchanged.
pub open spec fn spec_ret(m: Machine) -> Result<Machine, Chip8Error> {
    if m.sp == 0 {
        Err(Chip8Error::StackUnderflow)
    } else {
        Ok(Machine { sp: (m.sp - 1) as u16, pc: m.stack[m.sp - 1], ..m })
    }
}

/// Jump: the program counter becomes the address.
pub open spec fn spec_jump(m: Machine, nnn: u16) -> Machine {
    Machine { pc: nnn, ..m }
}

/// Call: push the program counter and jump; with all 16 frames in use this
/// is a `StackOverflow` and the machine is unchanged.
pub open spec fn spec_call(m: Machine, nnn: u16) -> Result<Machine, Chip8Error> {
    if m.sp >= STACK_SIZE {
        Err(Chip8Error::StackOverflow)
    } else {
        Ok(Machine {
            stack: m.stack.update(m.sp as int, m.pc),
            sp: (m.sp + 1) as u16,
            pc: nnn,
            ..m
        })
    }
}

/// Advance the program counter by one instruction when the condition holds.
pub open spec fn spec_skip_if(m: Machine, cond: bool) -> Machine {
    if cond {
        Machine { pc: spec_pc_plus2(m.pc), ..m }
    } else {
        m
    }
}

/// LoadByte: Vx = nn.
pub open spec fn spec_load_byte(m: Machine, x: int, nn: u8) -> Machine {
    Machine { registers: m.registers.update(x, nn), ..m }
}

/// AddByte: Vx = Vx + nn, wrapping, without touching VF.
pub open spec fn spec_add_register(m: Machine, x: int, nn: u8) -> Machine {
    Machine { registers: m.registers.update(x, spec_wrap_add_u8(m.registers[x], nn)), ..m }
}

/// LoadReg: Vx = Vy.
pub open spec fn spec_load_register(m: Machine, x: int, y: int) -> Machine {
    Machine { registers: m.registers.update(x, m.registers[y]), ..m }
}

/// Or: Vx = Vx | Vy.
pub open spec fn spec_or(m: Machine, x: int, y: int) -> Machine {
    Machine { registers: m.registers.update(x, m.registers[x] | m.registers[y]), ..m }
}

/// And: Vx = Vx & Vy.
pub open spec fn spec_and(m: Machine, x: int, y: int) -> Machine {
    Machine { registers: m.registers.update(x, m.registers[x] & m.registers[y]), ..m }
}

/// Xor: Vx = Vx ^ Vy.
pub open spec fn spec_xor(m: Machine, x: int, y: int) -> Machine {
    Machine { registers: m.registers.update(x, m.registers[x] ^ m.registers[y]), ..m }
}

/// Add: Vx = Vx + Vy wrapping, then VF = 1 exactly when the sum carried
/// out of 8 bits. The VF write comes second, so it wins when x is 15.
pub open spec fn spec_add(m: Machine, x: int, y: int) -> Machine {
    let sum = m.registers[x] + m.registers[y];
    let value: u8 = if sum < 256 { sum as u8 } else { (sum - 256) as u8 };
    let carry: u8 = if sum >= 256 { 1u8 } else { 0u8 };
    Machine { registers: m.registers.update(x, value).update(15, carry), ..m }
}

/// Sub: Vx = Vx - Vy wrapping, then VF = 1 exactly when no borrow was
/// needed, that is when Vx >= Vy held before the subtraction.
pub open spec fn spec_subtract(m: Machine, x: int, y: int) -> Machine {
    let a = m.registers[x];
    let b = m.registers[y];
    let value: u8 = if a >= b { (a - b) as u8 } else { (a - b + 256) as u8 };
    let no_borrow: u8 = if a >= b { 1u8 } else { 0u8 };
    Machine { registers: m.registers.update(x, value).update(15, no_borrow), ..m }
}

/// SubRev: Vx = Vy - Vx wrapping, then VF = 1 exactly when no borrow was
/// needed, that is when Vy >= Vx held before the subtraction.
pub open spec fn spec_subtract_rev(m: Machine, x: int, y: int) -> Machine {
    let a = m.registers[y];
    let b = m.registers[x];
    let value: u8 = if a >= b { (a - b) as u8 } else { (a - b + 256) as u8 };
    let no_borrow: u8 = if a >= b { 1u8 } else { 0u8 };
    Machine { registers: m.registers.update(x, value).update(15, no_borrow), ..m }
}

/// Shr: with the quirk on, Vx is first replaced by Vy; then VF captures the
/// low bit of Vx, and Vx is shifted right once. The writes happen in that
/// order, which matters when x is 15.
pub open spec fn spec_shr(m: Machine, x: int, y: int) -> Machine {
    let s1 = if m.shift_quirk { m.registers.update(x, m.registers[y]) } else { m.registers };
    let s2 = s1.update(15, s1[x] & 1);
    let s3 = s2.update(x, s2[x] >> 1u8);
    Machine { registers: s3, ..m }
}

/// Shl: with the quirk on, Vx is first replaced by Vy; then VF captures the
/// high bit of Vx, and Vx is shifted left once. The writes happen in that
/// order, which matters when x is 15.
pub open spec fn spec_shl(m: Machine, x: int, y: int) -> Machine {
    let s1 = if m.shift_quirk { m.registers.update(x, m.registers[y]) } else { m.registers };
    let s2 = s1.update(15, (s1[x] >> 7u8) & 1);
    let s3 = s2.update(x, s2[x] << 1u8);
    Machine { registers: s3, ..m }
}

/// LoadI: I = nnn.
pub open spec fn spec_load_i(m: Machine, nnn: u16) -> Machine {
    Machine { i: nnn, ..m }
}

/// JumpOffset: PC = Vx + nnn. The sum of a byte and a 12-bit address fits
/// in 16 bits, so there is no wrap.
pub open spec fn spec_jump_offset(m: Machine, x: int, nnn: u16) -> Machine {
    Machine { pc: (m.registers[x] + nnn) as u16, ..m }
}

/// Random: Vx = rnd & nn, where rnd is the byte the random source produced.
pub open spec fn spec_random(m: Machine, x: int, nn: u8, rnd: u8) -> Machine {
    Machine { registers: m.registers.update(x, rnd & nn), ..m }
}

/// The key numbered vx is currently pressed. A register value outside the
/// sixteen keys names no key, so it counts as not pressed.
pub open spec fn spec_key_pressed(m: Machine, vx: u8) -> bool {
    vx < 16 && m.keys[vx as int] is Pressed
}

/// SkipKeyPressed: skip one instruction when the key numbered Vx is down.
pub open spec fn spec_skip_key_pressed(m: Machine, x: int) -> Machine {
    spec_skip_if(m, spec_key_pressed(m, m.registers[x]))
}

/// SkipKeyReleased: skip one instruction when the key numbered Vx is up.
pub open spec fn spec_skip_key_released(m: Machine, x: int) -> Machine {
    spec_skip_if(m, !spec_key_pressed(m, m.registers[x]))
}

/// LoadDelayTimer: Vx = the delay timer.
pub open spec fn spec_load_delay_timer(m: Machine, x: int) -> Machine {
    Machine { registers: m.registers.update(x, m.delay_timer), ..m }
}

/// The lowest-numbered pressed key at or above position k, or 16 when none
/// is pressed.
pub open spec fn spec_first_pressed(keys: Seq<KeyState>, k: int) -> int
    decreases 16 - k,
{
    if k < 0 || k >= 16 {
        16
    } else if keys[k] is Pressed {
        k
    } else {
        spec_first_pressed(keys, k + 1)
    }
}

/// GetKey: when a key is pressed, the lowest-numbered one is latched into
/// Vx; otherwise the program counter is rewound by one instruction, so the
/// same GetKey is fetched again next cycle (a busy wait paced by the
/// instruction rate).
pub open spec fn spec_get_key(m: Machine, x: int) -> Machine {
    let k = spec_first_pressed(m.keys, 0);
    if k < 16 {
        Machine { registers: m.registers.update(x, k as u8), ..m }
    } else {
        Machine { pc: spec_pc_minus2(m.pc), ..m }
    }
}

/// SetDelayTimer: the delay timer = Vx.
pub open spec fn spec_set_delay_timer(m: Machine, x: int) -> Machine {
    Machine { delay_timer: m.registers[x], ..m }
}

/// SetSoundTimer: the sound timer = Vx.
pub open spec fn spec_set_sound_timer(m: Machine, x: int) -> Machine {
    Machine { sound_timer: m.registers[x], ..m }
}

/// AddI: I = I + Vx wrapping at 16 bits, then VF = 1 exactly when the sum
/// carried out of 16 bits.
pub open spec fn spec_add_i(m: Machine, x: int) -> Machine {
    let sum = m.i + m.registers[x];
    let value: u16 = if sum <= 0xFFFF { sum as u16 } else { (sum - 0x10000) as u16 };
    let carry: u8 = if sum > 0xFFFF { 1u8 } else { 0u8 };
    Machine { i: value, registers: m.registers.update(15, carry), ..m }
}

/// LoadFont: I = Vx * 5, the address of glyph Vx in the font table.
pub open spec fn spec_load_font(m: Machine, x: int) -> Machine {
    Machine { i: (5 * m.registers[x]) as u16, ..m }
}

/// LoadBcd: the three decimal digits of Vx go to memory at I, I+1, I+2;
/// a write that would leave memory is a `MemoryFault` and nothing changes.
pub open spec fn spec_load_bcd(m: Machine, x: int) -> Result<Machine, Chip8Error> {
    if m.i + 3 > MEMORY_SIZE {
        Err(Chip8Error::MemoryFault)
    } else {
        let v = m.registers[x];
        Ok(Machine {
            memory: m.memory
                .update(m.i as int, (v / 100) as u8)
                .update(m.i + 1, ((v % 100) / 10) as u8)
                .update(m.i + 2, (v % 10) as u8),
            ..m
        })
    }
}

/// StoreMemory: registers V0..=Vx go to memory at I..; a write that would
/// leave memory is a `MemoryFault` and nothing changes.
pub open spec fn spec_store_memory(m: Machine, x: int) -> Result<Machine, Chip8Error> {
    if m.i + x + 1 > MEMORY_SIZE {
        Err(Chip8Error::MemoryFault)
    } else {
        Ok(Machine {
            memory: Seq::new(
                MEMORY_SIZE as nat,
                |k: int| if m.i <= k <= m.i + x {
                    m.registers[k - m.i]
                } else {
                    m.memory[k]
                },
            ),
            ..m
        })
    }
}

/// LoadMemory: registers V0..=Vx are filled from memory at I..; a read that
/// would leave memory is a `MemoryFault` and nothing changes.
pub open spec fn spec_load_memory(m: Machine, x: int) -> Result<Machine, Chip8Error> {
    if m.i + x + 1 > MEMORY_SIZE {
        Err(Chip8Error::MemoryFault)
    } else {
        Ok(Machine {
            registers: Seq::new(
                REGISTERS_SIZE as nat,
                |j: int| if 0 <= j <= x {
                    m.memory[m.i + j]
                } else {
                    m.registers[j]
                },
            ),
            ..m
        })
    }
}

/// A timer tick: the counter steps toward zero and never below it.
pub open spec fn spec_tick_timer(t: u8) -> u8 {
    if t > 0 {
        (t - 1) as u8
    } else {
        0u8
    }
}

/// A timer tick is due: the timer interval has elapsed since the last tick.
pub open spec fn spec_timer_due(m: Machine, now: u64) -> bool {
    now >= m.timer_start && now - m.timer_start >= m.timer_duration
}

/// The timer step of one cycle: when a tick is due, both counters step
/// toward zero, the tick interval restarts, and the audio collaborator is
/// told to play (sound timer was running) or stop (it had reached zero).
/// Otherwise nothing happens.
pub open spec fn spec_update_timers(m: Machine, now: u64) -> (Machine, Option<SoundCommand>) {
    if spec_timer_due(m, now) {
        (
            Machine {
                delay_timer: spec_tick_timer(m.delay_timer),
                sound_timer: spec_tick_timer(m.sound_timer),
                timer_start: now,
                ..m
            },
            if m.sound_timer > 0 {
                Some(SoundCommand::Play)
            } else {
                Some(SoundCommand::Stop)
            },
        )
    } else {
        (m, None)
    }
}

impl Chip8 {
    /// Clear the display.
    fn clear(&mut self)
        requires
            old(self).wf(),
        ensures
            final(self).wf(),
            final(self)@ == spec_clear(old(self)@),
    {
        let mut display: Vec<u8> = Vec::new();
        while display.len() < DISPLAY_SIZE
            invariant
                display@.len() <= DISPLAY_SIZE,
                forall|k: int| 0 <= k < display@.len() ==> display@[k] == 0u8,
            decreases DISPLAY_SIZE - display@.len(),
        {
            display.push(0);
        }
        self.display = display;
        proof {
            assert(self@.display =~= spec_clear(old(self)@).display);
            assert(self@ =~= spec_clear(old(self)@));
        }
    }

    /// Pop the return address into the program counter.
    fn ret(&mut self) -> (r: Result<(), Chip8Error>)
        requires
            old(self).wf(),
        ensures
            final(self).wf(),
            match spec_ret(old(self)@) {
                Ok(m2) => r is Ok && final(self)@ == m2,
                Err(e) => r == Err::<(), Chip8Error>(e) && final(self)@ == old(self)@,
            },
    {
        if self.sp == 0 {
            return Err(Chip8Error::StackUnderflow);
        }
        self.sp = self.sp - 1;
        let address = self.stack[self.sp as usize];
        self.jump(address);
        Ok(())
    }

    /// Set the program counter.
    fn jump(&mut self, address: u16)
        requires
            old(self).wf(),
        ensures
            final(self).wf(),
            final(self)@ == spec_jump(old(self)@, address),
    {
        self.pc = address;
    }

    /// Push the program counter and jump.
    fn call(&mut self, address: u16) -> (r: Result<(), Chip8Error>)
        requires
            old(self).wf(),
        ensures
            final(self).wf(),
            match spec_call(old(self)@, address) {
                Ok(m2) => r is Ok && final(self)@ == m2,
                Err(e) => r == Err::<(), Chip8Error>(e) && final(self)@ == old(self)@,
            },
    {
        if self.sp >= STACK_SIZE as u16 {
            return Err(Chip8Error::StackOverflow);
        }
        self.stack.set(self.sp as usize, self.pc);
        self.sp = self.sp + 1;
        self.jump(address);
        Ok(())
    }

    /// Advance the program counter by one instruction, wrapping at the
    /// 16-bit boundary.
    fn advance_pc(&mut self)
        requires
            old(self).wf(),
        ensures
            final(self).wf(),
            final(self)@ == (Machine { pc: spec_pc_plus2(old(self)@.pc), ..old(self)@ }),
    {
        if self.pc <= 0xFFFD {
            self.pc = self.pc + 2;
        } else {
            self.pc = self.pc - 0xFFFE;
        }
    }

    /// Skip one instruction when Vx equals the immediate byte.
    fn skip_equal_byte(&mut self, register_x: u8, value: u8)
        requires
            old(self).wf(),
            register_x < 16,
        ensures
            final(self).wf(),
            final(self)@ == spec_skip_if(
                old(self)@,
                old(self)@.registers[register_x as int] == value,
            ),
    {
        let register_value = self.registers[register_x as usize];
        if register_value == value {
            self.advance_pc();
        }
    }

    /// Skip one instruction when Vx differs from the immediate byte.
    fn skip_not_equal_byte(&mut self, register_x: u8, value: u8)
        requires
            old(self).wf(),
            register_x < 16,
        ensures
            final(self).wf(),
            final(self)@ == spec_skip_if(
                old(self)@,
                old(self)@.registers[register_x as int] != value,
            ),
    {
        let register_value = self.registers[register_x as usize];
        if register_value != value {
            self.advance_pc();
        }
    }

    /// Skip one instruction when Vx equals Vy.
    fn skip_equal_registers(&mut self, register_x: u8, register_y: u8)
        requires
            old(self).wf(),
            register_x < 16,
            register_y < 16,
        ensures
            final(self).wf(),
            final(self)@ == spec_skip_if(
                old(self)@,
                old(self)@.registers[register_x as int] == old(self)@.registers[register_y as int],
            ),
    {
        let register_x_value = self.registers[register_x as usize];
        let register_y_value = self.registers[register_y as usize];
        if register_x_value == register_y_value {
            self.advance_pc();
        }
    }

    /// Skip one instruction when Vx differs from Vy.
    fn skip_not_equal_registers(&mut self, register_x: u8, register_y: u8)
        requires
            old(self).wf(),
            register_x < 16,
            register_y < 16,
        ensures
            final(self).wf(),
            final(self)@ == spec_skip_if(
                old(self)@,
                old(self)@.registers[register_x as int] != old(self)@.registers[register_y as int],
            ),
    {
        let register_x_value = self.registers[register_x as usize];
        let register_y_value = self.registers[register_y as usize];
        if register_x_value != register_y_value {
            self.advance_pc();
        }
    }

    /// Vx = nn.
    fn load_byte(&mut self, register_x: u8, value: u8)
        requires
            old(self).wf(),
            register_x < 16,
        ensures
            final(self).wf(),
            final(self)@ == spec_load_byte(old(self)@, register_x as int, value),
    {
        self.registers.set(register_x as usize, value);
    }

    /// Vx = Vx + nn, wrapping, without touching VF.
    fn add_register(&mut self, register_x: u8, value: u8)
        requires
            old(self).wf(),
            register_x < 16,
        ensures
            final(self).wf(),
            final(self)@ == spec_add_register(old(self)@, register_x as int, value),
    {
        let a = self.registers[register_x as usize];
        let sum: u16 = a as u16 + value as u16;
        let wrapped: u8 = if sum < 256 { sum as u8 } else { (sum - 256) as u8 };
        self.registers.set(register_x as usize, wrapped);
    }

    /// Vx = Vy.
    fn load_register(&mut self, register_x: u8, register_y: u8)
        requires
            old(self).wf(),
            register_x < 16,
            register_y < 16,
        ensures
            final(self).wf(),
            final(self)@ == spec_load_register(old(self)@, register_x as int, register_y as int),
    {
        let value = self.registers[register_y as usize];
        self.registers.set(register_x as usize, value);
    }

    /// Vx = Vx | Vy.
    fn or(&mut self, register_x: u8, register_y: u8)
        requires
            old(self).wf(),
            register_x < 16,
            register_y < 16,
        ensures
            final(self).wf(),
            final(self)@ == spec_or(old(self)@, register_x as int, register_y as int),
    {
        let value = self.registers[register_x as usize] | self.registers[register_y as usize];
        self.registers.set(register_x as usize, value);
    }

    /// Vx = Vx & Vy.
    fn and(&mut self, register_x: u8, register_y: u8)
        requires
            old(self).wf(),
            register_x < 16,
            register_y < 16,
        ensures
            final(self).wf(),
            final(self)@ == spec_and(old(self)@, register_x as int, register_y as int),
    {
        let value = self.registers[register_x as usize] & self.registers[register_y as usize];
        self.registers.set(register_x as usize, value);
    }

    /// Vx = Vx ^ Vy.
    fn xor(&mut self, register_x: u8, register_y: u8)
        requires
            old(self).wf(),
            register_x < 16,
            register_y < 16,
        ensures
            final(self).wf(),
            final(self)@ == spec_xor(old(self)@, register_x as int, register_y as int),
    {
        let value = self.registers[register_x as usize] ^ self.registers[register_y as usize];
        self.registers.set(register_x as usize, value);
    }

    /// Vx = Vx + Vy wrapping; VF reports the carry.
    fn add(&mut self, register_x: u8, register_y: u8)
        requires
            old(self).wf(),
            register_x < 16,
            register_y < 16,
        ensures
            final(self).wf(),
            final(self)@ == spec_add(old(self)@, register_x as int, register_y as int),
    {
        let a = self.registers[register_x as usize];
        let b = self.registers[register_y as usize];
        let sum: u16 = a as u16 + b as u16;
        let value: u8 = if sum < 256 { sum as u8 } else { (sum - 256) as u8 };
        let carry: u8 = if sum >= 256 { 1 } else { 0 };
        self.registers.set(register_x as usize, value);
        self.registers.set(0xF, carry);
    }

    /// Vx = Vx - Vy wrapping; VF reports that no borrow was needed.
    fn subtract(&mut self, register_x: u8, register_y: u8)
        requires
            old(self).wf(),
            register_x < 16,
            register_y < 16,
        ensures
            final(self).wf(),
            final(self)@ == spec_subtract(old(self)@, register_x as int, register_y as int),
    {
        let a = self.registers[register_x as usize];
        let b = self.registers[register_y as usize];
        let value: u8 = if a >= b { a - b } else { (a as u16 + 256 - b as u16) as u8 };
        let no_borrow: u8 = if a >= b { 1 } else { 0 };
        self.registers.set(register_x as usize, value);
        self.registers.set(0xF, no_borrow);
    }

    /// Vx = Vy - Vx wrapping; VF reports that no borrow was needed.
    fn subtract_rev(&mut self, register_x: u8, register_y: u8)
        requires
            old(self).wf(),
            register_x < 16,
            register_y < 16,
        ensures
            final(self).wf(),
            final(self)@ == spec_subtract_rev(old(self)@, register_x as int, register_y as int),
    {
        let a = self.registers[register_y as usize];
        let b = self.registers[register_x as usize];
        let value: u8 = if a >= b { a - b } else { (a as u16 + 256 - b as u16) as u8 };
        let no_borrow: u8 = if a >= b { 1 } else { 0 };
        self.registers.set(register_x as usize, value);
        self.registers.set(0xF, no_borrow);
    }

    /// Shift Vx right once; VF captures the bit shifted out. With the quirk
    /// on, Vx is first replaced by Vy.
    fn shr(&mut self, register_x: u8, register_y: u8)
        requires
            old(self).wf(),
            register_x < 16,
            register_y < 16,
        ensures
            final(self).wf(),
            final(self)@ == spec_shr(old(self)@, register_x as int, register_y as int),
    {
        let x = register_x as usize;
        let y = register_y as usize;
        if self.shift_quirk {
            let value = self.registers[y];
            self.registers.set(x, value);
        }
        let low_bit = self.registers[x] & 1;
        self.registers.set(0xF, low_bit);
        let shifted = self.registers[x] >> 1u8;
        self.registers.set(x, shifted);
    }

    /// Shift Vx left once; VF captures the bit shifted out. With the quirk
    /// on, Vx is first replaced by Vy.
    fn shl(&mut self, register_x: u8, register_y: u8)
        requires
            old(self).wf(),
            register_x < 16,
            register_y < 16,
        ensures
            final(self).wf(),
            final(self)@ == spec_shl(old(self)@, register_x as int, register_y as int),
    {
        let x = register_x as usize;
        let y = register_y as usize;
        if self.shift_quirk {
            let value = self.registers[y];
            self.registers.set(x, value);
        }
        let high_bit = (self.registers[x] >> 7u8) & 1;
        self.registers.set(0xF, high_bit);
        let shifted = self.registers[x] << 1u8;
        self.registers.set(x, shifted);
    }

    /// I = nnn.
    fn load_i(&mut self, address: u16)
        requires
            old(self).wf(),
        ensures
            final(self).wf(),
            final(self)@ == spec_load_i(old(self)@, address),
    {
        self.i = address;
    }

    /// PC = Vx + nnn.
    fn jump_offset(&mut self, register_x: u8, address: u16)
        requires
            old(self).wf(),
            register_x < 16,
            address < 4096,
        ensures
            final(self).wf(),
            final(self)@ == spec_jump_offset(old(self)@, register_x as int, address),
    {
        self.pc = self.registers[register_x as usize] as u16 + address;
    }

    /// Vx = rnd & nn, for the byte the random source produced.
    fn random(&mut self, register_x: u8, value: u8, random_value: u8)
        requires
            old(self).wf(),
            register_x < 16,
        ensures
            final(self).wf(),
            final(self)@ == spec_random(old(self)@, register_x as int, value, random_value),
    {
        self.registers.set(register_x as usize, random_value & value);
    }

    /// Skip one instruction when the key numbered Vx is down.
    fn skip_key_pressed(&mut self, register_x: u8)
        requires
            old(self).wf(),
            register_x < 16,
        ensures
            final(self).wf(),
            final(self)@ == spec_skip_key_pressed(old(self)@, register_x as int),
    {
        let key = self.registers[register_x as usize];
        if key < 16 && self.keys[key as usize] == KeyState::Pressed {
            self.advance_pc();
        }
    }

    /// Skip one instruction when the key numbered Vx is up.
    fn skip_key_released(&mut self, register_x: u8)
        requires
            old(self).wf(),
            register_x < 16,
        ensures
            final(self).wf(),
            final(self)@ == spec_skip_key_released(old(self)@, register_x as int),
    {
        let key = self.registers[register_x as usize];
        if !(key < 16 && self.keys[key as usize] == KeyState::Pressed) {
            self.advance_pc();
        }
    }

    /// Vx = the delay timer.
    fn load_delay_timer(&mut self, register_x: u8)
        requires
            old(self).wf(),
            register_x < 16,
        ensures
            final(self).wf(),
            final(self)@ == spec_load_delay_timer(old(self)@, register_x as int),
    {
        let value = self.delay_timer;
        self.registers.set(register_x as usize, value);
    }

    /// The delay timer = Vx.
    fn set_delay_timer(&mut self, register_x: u8)
        requires
            old(self).wf(),
            register_x < 16,
        ensures
            final(self).wf(),
            final(self)@ == spec_set_delay_timer(old(self)@, register_x as int),
    {
        self.delay_timer = self.registers[register_x as usize];
    }

    /// The sound timer = Vx.
    fn set_sound_timer(&mut self, register_x: u8)
        requires
            old(self).wf(),
            register_x < 16,
        ensures
            final(self).wf(),
            final(self)@ == spec_set_sound_timer(old(self)@, register_x as int),
    {
        self.sound_timer = self.registers[register_x as usize];
    }

    /// I = I + Vx wrapping at 16 bits; VF reports the carry.
    fn add_i(&mut self, register_x: u8)
        requires
            old(self).wf(),
            register_x < 16,
        ensures
            final(self).wf(),
            final(self)@ == spec_add_i(old(self)@, register_x as int),
    {
        let a = self.i as u32;
        let b = self.registers[register_x as usize] as u32;
        let sum: u32 = a + b;
        let value: u16 = if sum <= 0xFFFF { sum as u16 } else { (sum - 0x10000) as u16 };
        let carry: u8 = if sum > 0xFFFF { 1 } else { 0 };
        self.i = value;
        self.registers.set(0xF, carry);
    }

    /// I = Vx * 5, the address of glyph Vx in the font table.
    fn load_font(&mut self, register_x: u8)
        requires
            old(self).wf(),
            register_x < 16,
        ensures
            final(self).wf(),
            final(self)@ == spec_load_font(old(self)@, register_x as int),
    {
        let character = self.registers[register_x as usize];
        self.i = 5 * character as u16;
    }

    /// Write the three decimal digits of Vx to memory at I, I+1, I+2.
    fn load_bcd(&mut self, register_x: u8) -> (r: Result<(), Chip8Error>)
        requires
            old(self).wf(),
            register_x < 16,
        ensures
            final(self).wf(),
            match spec_load_bcd(old(self)@, register_x as int) {
                Ok(m2) => r is Ok && final(self)@ == m2,
                Err(e) => r == Err::<(), Chip8Error>(e) && final(self)@ == old(self)@,
            },
    {
        if self.i as usize + 3 > MEMORY_SIZE {
            return Err(Chip8Error::MemoryFault);
        }
        let value = self.registers[register_x as usize];
        let first_digit = value / 100;
        let second_digit = value % 100 / 10;
        let third_digit = value % 10;
        let base = self.i as usize;
        self.memory.set(base, first_digit);
        self.memory.set(base + 1, second_digit);
        self.memory.set(base + 2, third_digit);
        Ok(())
    }

    /// Copy registers V0..=Vx to memory at I...
    fn store_memory(&mut self, register_x: u8) -> (r: Result<(), Chip8Error>)
        requires
            old(self).wf(),
            register_x < 16,
        ensures
            final(self).wf(),
            match spec_store_memory(old(self)@, register_x as int) {
                Ok(m2) => r is Ok && final(self)@ == m2,
                Err(e) => r == Err::<(), Chip8Error>(e) && final(self)@ == old(self)@,
            },
    {
        if self.i as usize + register_x as usize + 1 > MEMORY_SIZE {
            return Err(Chip8Error::MemoryFault);
        }
        let ghost m0 = self@;
        let base = self.i as usize;
        let mut offset: usize = 0;
        while offset <= register_x as usize
            invariant
                m0.inv(),
                base == m0.i,
                register_x < 16,
                offset <= register_x as usize + 1,
                base + register_x as usize + 1 <= MEMORY_SIZE,
                self@.memory.len() == MEMORY_SIZE,
                forall|k: int| base <= k < base + offset ==> self@.memory[k] == m0.registers[k - base],
                forall|k: int| 0 <= k < MEMORY_SIZE && !(base <= k < base + offset)
                    ==> self@.memory[k] == m0.memory[k],
                self@ == (Machine { memory: self@.memory, ..m0 }),
            decreases register_x as usize + 1 - offset,
        {
            let data = self.registers[offset];
            self.memory.set(base + offset, data);
            offset = offset + 1;
        }
        proof {
            let m2 = spec_store_memory(m0, register_x as int)->Ok_0;
            assert(self@.memory =~= m2.memory);
            assert(self@ =~= m2);
        }
        Ok(())
    }

    /// Fill registers V0..=Vx from memory at I...
    fn load_memory(&mut self, register_x: u8) -> (r: Result<(), Chip8Error>)
        requires
            old(self).wf(),
            register_x < 16,
        ensures
            final(self).wf(),
            match spec_load_memory(old(self)@, register_x as int) {
                Ok(m2) => r is Ok && final(self)@ == m2,
                Err(e) => r == Err::<(), Chip8Error>(e) && final(self)@ == old(self)@,
            },
    {
        if self.i as usize + register_x as usize + 1 > MEMORY_SIZE {
            return Err(Chip8Error::MemoryFault);
        }
        let ghost m0 = self@;
        let base = self.i as usize;
        let mut offset: usize = 0;
        while offset <= register_x as usize
            invariant
                m0.inv(),
                base == m0.i,
                register_x < 16,
                offset <= register_x as usize + 1,
                base + register_x as usize + 1 <= MEMORY_SIZE,
                self@.registers.len() == REGISTERS_SIZE,
                forall|j: int| 0 <= j < offset ==> self@.registers[j] == m0.memory[base + j],
                forall|j: int| offset <= j < REGISTERS_SIZE ==> self@.registers[j] == m0.registers[j],
                self@ == (Machine { registers: self@.registers, ..m0 }),
            decreases register_x as usize + 1 - offset,
        {
            let data = self.memory[base + offset];
            self.registers.set(offset, data);
            offset = offset + 1;
        }
        proof {
            let m2 = spec_load_memory(m0, register_x as int)->Ok_0;
            assert(self@.registers =~= m2.registers);
            assert(self@ =~= m2);
        }
        Ok(())
    }

    /// Decrement the delay timer toward zero.
    fn update_delay_timer(&mut self)
        requires
            old(self).wf(),
        ensures
            final(self).wf(),
            final(self)@ == (Machine {
                delay_timer: spec_tick_timer(old(self)@.delay_timer),
                ..old(self)@
            }),
    {
        if self.delay_timer > 0 {
            self.delay_timer = self.delay_timer - 1;
        }
    }

    /// Decrement the sound timer toward zero, reporting whether the tone
    /// should play or stop.
    fn update_sound_timer(&mut self) -> (r: SoundCommand)
        requires
            old(self).wf(),
        ensures
            final(self).wf(),
            final(self)@ == (Machine {
                sound_timer: spec_tick_timer(old(self)@.sound_timer),
                ..old(self)@
            }),
            r == (if old(self)@.sound_timer > 0 { SoundCommand::Play } else { SoundCommand::Stop }),
    {
        if self.sound_timer > 0 {
            self.sound_timer = self.sound_timer - 1;
            SoundCommand::Play
        } else {
            SoundCommand::Stop
        }
    }

    /// Run the timer clock domain for this cycle: tick both timers when the
    /// timer interval has elapsed.
    fn update_timers(&mut self, now: u64) -> (r: Option<SoundCommand>)
        requires
            old(self).wf(),
        ensures
            final(self).wf(),
            final(self)@ == spec_update_timers(old(self)@, now).0,
            r == spec_update_timers(old(self)@, now).1,
    {
        if now >= self.timer_start && now - self.timer_start >= self.timer_duration {
            self.update_delay_timer();
            let cmd = self.update_sound_timer();
            self.timer_start = now;
            Some(cmd)
        } else {
            None
        }
    }
}

/// The sprite bit for sprite row r and sprite column c: bit (7 - c) of the
/// sprite byte fetched from memory at I + r.
pub open spec fn spec_sprite_bit(m: Machine, r: int, c: int) -> u8 {
    (m.memory[m.i + r] >> ((7 - c) as u8)) & 1
}

/// Cell idx lies in the sprite footprint started at column x0, row y0:
/// its row is one of the n sprite rows and its column one of the 8 sprite
/// columns. Rows below the bottom edge and columns beyond the right edge
/// correspond to no cell, so they are clipped rather than wrapped.
pub open spec fn spec_cell_covered(x0: int, y0: int, n: int, idx: int) -> bool {
    y0 <= idx / 64 < y0 + n && x0 <= idx % 64 < x0 + 8
}

/// What drawing writes to a covered cell: the XOR of the cell with its
/// sprite bit.
pub open spec fn spec_drawn_cell(m: Machine, x0: int, y0: int, idx: int) -> u8 {
    if spec_sprite_bit(m, idx / 64 - y0, idx % 64 - x0) == 1 {
        (1 - m.display[idx]) as u8
    } else {
        m.display[idx]
    }
}

/// The display after a draw: every covered cell is XORed with its sprite
/// bit; every other cell is untouched.
pub open spec fn spec_draw_display(m: Machine, x0: int, y0: int, n: int) -> Seq<u8> {
    Seq::new(
        DISPLAY_SIZE as nat,
        |idx: int| if spec_cell_covered(x0, y0, n, idx) {
            spec_drawn_cell(m, x0, y0, idx)
        } else {
            m.display[idx]
        },
    )
}

/// A set cell whose sprite bit is also set: drawing turns it off, which is
/// the collision the flag register reports.
pub open spec fn spec_cell_collides(m: Machine, x0: int, y0: int, idx: int) -> bool {
    m.display[idx] == 1 && spec_sprite_bit(m, idx / 64 - y0, idx % 64 - x0) == 1
}

/// The draw collides exactly when some covered cell goes from set to unset.
pub open spec fn spec_draw_collision(m: Machine, x0: int, y0: int, n: int) -> bool {
    exists|idx: int|
        0 <= idx < DISPLAY_SIZE && spec_cell_covered(x0, y0, n, idx) && spec_cell_collides(
            m,
            x0,
            y0,
            idx,
        )
}

/// Cell idx has been processed once the scan stands at sprite row r, column
/// c: its row is an earlier one, or it sits at an earlier column of row r.
pub open spec fn spec_cell_done(x0: int, y0: int, r: int, c: int, idx: int) -> bool {
    idx / 64 < y0 + r || (idx / 64 == y0 + r && idx % 64 < x0 + c)
}

/// How many sprite rows are actually drawn: rows below the bottom edge are
/// skipped.
pub open spec fn spec_draw_rows(y0: int, n: int) -> int {
    if n <= 32 - y0 {
        n
    } else {
        32 - y0
    }
}

/// Drawing fetches one sprite byte per drawn row; a fetch outside memory is
/// a `MemoryFault`.
pub open spec fn spec_draw_fault(m: Machine, y0: int, n: int) -> bool {
    spec_draw_rows(y0, n) > 0 && m.i + spec_draw_rows(y0, n) > MEMORY_SIZE
}

/// Draw: the start cell is (Vx mod 64, Vy mod 32) — wrapped on entry only.
/// Each covered cell is XORed with its sprite bit; VF ends 1 exactly when
/// some covered cell went from set to unset, else 0; a pending draw is
/// recorded for the display collaborator. A sprite fetch outside memory is
/// a `MemoryFault` and nothing changes.
pub open spec fn spec_draw(m: Machine, x: int, y: int, n: int) -> Result<Machine, Chip8Error> {
    let x0 = (m.registers[x] % 64) as int;
    let y0 = (m.registers[y] % 32) as int;
    if spec_draw_fault(m, y0, n) {
        Err(Chip8Error::MemoryFault)
    } else {
        Ok(Machine {
            display: spec_draw_display(m, x0, y0, n),
            registers: m.registers.update(
                15,
                if spec_draw_collision(m, x0, y0, n) {
                    1u8
                } else {
                    0u8
                },
            ),
            can_draw: true,
            ..m
        })
    }
}

/// The machine midway through a draw that started from state m0: every
/// covered cell before the scan point (sprite row r, column c) holds its
/// drawn value and every other cell is untouched; the flag register is 1
/// only if the draw collides, and while it is still 0 no processed cell has
/// collided; nothing else has changed.
pub open spec fn spec_draw_partial(
    m0: Machine,
    m: Machine,
    x0: int,
    y0: int,
    n: int,
    r: int,
    c: int,
) -> bool {
    &&& m.display.len() == DISPLAY_SIZE
    &&& forall|k: int| #![trigger m0.display[k]] 0 <= k < DISPLAY_SIZE ==> m.display[k] == (
        if spec_cell_covered(x0, y0, n, k) && spec_cell_done(x0, y0, r, c, k) {
            spec_drawn_cell(m0, x0, y0, k)
        } else {
            m0.display[k]
        })
    &&& m.registers.len() == REGISTERS_SIZE
    &&& forall|j: int| #![trigger m0.registers[j]] 0 <= j < REGISTERS_SIZE && j != 15
        ==> m.registers[j] == m0.registers[j]
    &&& m.registers[15] <= 1
    &&& (m.registers[15] == 1 ==> spec_draw_collision(m0, x0, y0, n))
    &&& (m.registers[15] == 0 ==> forall|k: int| #![trigger spec_cell_collides(m0, x0, y0, k)]
        0 <= k < DISPLAY_SIZE && spec_cell_covered(x0, y0, n, k) && spec_cell_done(x0, y0, r, c, k)
        ==> !spec_cell_collides(m0, x0, y0, k))
    &&& m == (Machine { display: m.display, registers: m.registers, ..m0 })
}

impl Chip8 {
    /// XOR the n-row sprite at memory I into the display at (Vx, Vy),
    /// latching collisions into VF and recording the pending draw.
    fn draw(&mut self, x: u8, y: u8, n: u8) -> (r: Result<(), Chip8Error>)
        requires
            old(self).wf(),
            x < 16,
            y < 16,
            n < 16,
        ensures
            final(self).wf(),
            match spec_draw(old(self)@, x as int, y as int, n as int) {
                Ok(m2) => r is Ok && final(self)@ == m2,
                Err(e) => r == Err::<(), Chip8Error>(e) && final(self)@ == old(self)@,
            },
    {
        let ghost m0 = self@;
        let x0 = (self.registers[x as usize] % 64) as usize;
        let y0 = (self.registers[y as usize] % 32) as usize;
        let rows: usize = if (n as usize) <= DISPLAY_HEIGHT - y0 {
            n as usize
        } else {
            DISPLAY_HEIGHT - y0
        };
        proof {
            assert(x0 as int == (m0.registers[x as int] % 64) as int);
            assert(y0 as int == (m0.registers[y as int] % 32) as int);
            assert(0 <= x0 < 64 && 0 <= y0 < 32);
            assert(rows as int == spec_draw_rows(y0 as int, n as int));
        }
        if rows > 0 && self.i as usize + rows > MEMORY_SIZE {
            return Err(Chip8Error::MemoryFault);
        }
        self.registers.set(0xF, 0);
        proof {
            assert(spec_draw_partial(m0, self@, x0 as int, y0 as int, n as int, 0, 0)) by {
                assert forall|k: int| 0 <= k < DISPLAY_SIZE implies self@.display[k] == (
                    if spec_cell_covered(x0 as int, y0 as int, n as int, k)
                        && spec_cell_done(x0 as int, y0 as int, 0, 0, k) {
                        spec_drawn_cell(m0, x0 as int, y0 as int, k)
                    } else {
                        m0.display[k]
                    }) by {
                    let dk: u8 = m0.display[k];
                    assert(k == 64 * (k / 64) + k % 64);
                }
                assert forall|k: int|
                    0 <= k < DISPLAY_SIZE
                    && spec_cell_covered(x0 as int, y0 as int, n as int, k)
                    && spec_cell_done(x0 as int, y0 as int, 0, 0, k)
                    implies !spec_cell_collides(m0, x0 as int, y0 as int, k) by {
                    assert(k == 64 * (k / 64) + k % 64);
                }
            }
        }
        let mut row: usize = 0;
        while row < rows
            invariant
                m0.inv(),
                x < 16,
                y < 16,
                n < 16,
                0 <= x0 < 64,
                0 <= y0 < 32,
                x0 as int == (m0.registers[x as int] % 64) as int,
                y0 as int == (m0.registers[y as int] % 32) as int,
                rows as int == spec_draw_rows(y0 as int, n as int),
                rows > 0 ==> m0.i + rows <= MEMORY_SIZE,
                row <= rows,
                spec_draw_partial(m0, self@, x0 as int, y0 as int, n as int, row as int, 0),
            decreases rows - row,
        {
            let sprite_pixels = self.memory[self.i as usize + row];
            let cols: usize = if 8 <= DISPLAY_WIDTH - x0 {
                8
            } else {
                DISPLAY_WIDTH - x0
            };
            let mut col: usize = 0;
            while col < cols
                invariant
                    m0.inv(),
                    0 <= x0 < 64,
                    0 <= y0 < 32,
                    n < 16,
                    rows as int == spec_draw_rows(y0 as int, n as int),
                    row < rows,
                    rows > 0 ==> m0.i + rows <= MEMORY_SIZE,
                    cols as int == (if x0 + 8 <= 64 {
                        8int
                    } else {
                        64 - x0
                    }),
                    1 <= cols <= 8,
                    x0 + cols <= 64,
                    col <= cols,
                    sprite_pixels == m0.memory[m0.i + row],
                    spec_draw_partial(
                        m0, self@, x0 as int, y0 as int, n as int, row as int, col as int),
                decreases cols - col,
            {
                let shift = (7 - col) as u8;
                let sprite_pixel = (sprite_pixels >> shift) & 1;
                let idx = (y0 + row) * DISPLAY_WIDTH + x0 + col;
                let ghost gidx = idx as int;
                proof {
                    let dcur: u8 = m0.display[gidx];
                    assert(idx < DISPLAY_SIZE);
                    assert(gidx / 64 == y0 + row && gidx % 64 == x0 + col);
                    assert(spec_cell_covered(x0 as int, y0 as int, n as int, gidx));
                    assert(!spec_cell_done(x0 as int, y0 as int, row as int, col as int, gidx));
                    assert(sprite_pixel == spec_sprite_bit(m0, row as int, col as int));
                    assert(self@.display[gidx] == m0.display[gidx]);
                }
                if sprite_pixel == 1 {
                    let display_pixel = self.display[idx];
                    if display_pixel == 1 {
                        self.display.set(idx, 0);
                        self.registers.set(0xF, 1);
                        proof {
                            assert(spec_cell_collides(m0, x0 as int, y0 as int, gidx));
                            assert(spec_draw_collision(m0, x0 as int, y0 as int, n as int));
                        }
                    } else {
                        self.display.set(idx, 1);
                    }
                }
                proof {
                    assert(spec_draw_partial(
                        m0, self@, x0 as int, y0 as int, n as int, row as int,
                        col as int + 1)) by {
                        assert forall|k: int| 0 <= k < DISPLAY_SIZE implies self@.display[k] == (
                            if spec_cell_covered(x0 as int, y0 as int, n as int, k)
                                && spec_cell_done(
                                x0 as int, y0 as int, row as int, col as int + 1, k) {
                                spec_drawn_cell(m0, x0 as int, y0 as int, k)
                            } else {
                                m0.display[k]
                            }) by {
                            // Mentioning m0.display[k] instantiates the
                            // stage predicate's cell clause at k.
                            let dk: u8 = m0.display[k];
                            assert(k == 64 * (k / 64) + k % 64);
                        }
                        if self.registers@[15] == 0 {
                            assert forall|k: int|
                                0 <= k < DISPLAY_SIZE
                                && spec_cell_covered(x0 as int, y0 as int, n as int, k)
                                && spec_cell_done(
                                x0 as int, y0 as int, row as int, col as int + 1, k)
                                implies !spec_cell_collides(m0, x0 as int, y0 as int, k) by {
                                let dk: u8 = m0.display[k];
                                assert(k == 64 * (k / 64) + k % 64);
                            }
                        }
                    }
                }
                col = col + 1;
            }
            proof {
                assert(spec_draw_partial(
                    m0, self@, x0 as int, y0 as int, n as int, row as int + 1, 0)) by {
                    assert forall|k: int| 0 <= k < DISPLAY_SIZE implies self@.display[k] == (
                        if spec_cell_covered(x0 as int, y0 as int, n as int, k)
                            && spec_cell_done(x0 as int, y0 as int, row as int + 1, 0, k) {
                            spec_drawn_cell(m0, x0 as int, y0 as int, k)
                        } else {
                            m0.display[k]
                        }) by {
                        let dk: u8 = m0.display[k];
                        assert(0 <= k % 64 < 64);
                        assert(k == 64 * (k / 64) + k % 64);
                    }
                    if self.registers@[15] == 0 {
                        assert forall|k: int|
                            0 <= k < DISPLAY_SIZE
                            && spec_cell_covered(x0 as int, y0 as int, n as int, k)
                            && spec_cell_done(x0 as int, y0 as int, row as int + 1, 0, k)
                            implies !spec_cell_collides(m0, x0 as int, y0 as int, k) by {
                            let dk: u8 = m0.display[k];
                            assert(0 <= k % 64 < 64);
                            assert(k == 64 * (k / 64) + k % 64);
                        }
                    }
                }
            }
            row = row + 1;
        }
        self.can_draw = true;
        proof {
            assert forall|k: int|
                0 <= k < DISPLAY_SIZE
                && spec_cell_covered(x0 as int, y0 as int, n as int, k) implies spec_cell_done(
                x0 as int, y0 as int, rows as int, 0, k) by {
                assert(k / 64 < 32);
            }
            assert(self@.display =~= spec_draw_display(m0, x0 as int, y0 as int, n as int)) by {
                assert forall|k: int| 0 <= k < DISPLAY_SIZE implies self@.display[k]
                    == spec_draw_display(m0, x0 as int, y0 as int, n as int)[k] by {
                    let dk: u8 = m0.display[k];
                }
            }
            assert(self@.registers[15] == 0 ==> !spec_draw_collision(
                m0, x0 as int, y0 as int, n as int)) by {
                if self@.registers[15] == 0 && spec_draw_collision(
                    m0, x0 as int, y0 as int, n as int) {
                    let w = choose|idx: int|
                        0 <= idx < DISPLAY_SIZE
                        && spec_cell_covered(x0 as int, y0 as int, n as int, idx)
                        && spec_cell_collides(m0, x0 as int, y0 as int, idx);
                    assert(spec_cell_done(x0 as int, y0 as int, rows as int, 0, w));
                    assert(!spec_cell_collides(m0, x0 as int, y0 as int, w));
                }
            }
            let vf: u8 = if spec_draw_collision(m0, x0 as int, y0 as int, n as int) {
                1u8
            } else {
                0u8
            };
            assert(self@.registers[15] == vf);
            assert(self@.registers =~= m0.registers.update(15, vf));
            assert(self@ =~= spec_draw(m0, x as int, y as int, n as int)->Ok_0);
        }
        Ok(())
    }

    /// GetKey: latch the lowest-numbered pressed key into Vx, or rewind the
    /// program counter by one instruction so the same GetKey runs again
    /// next cycle.
    fn get_key(&mut self, register_x: u8)
        requires
            old(self).wf(),
            register_x < 16,
        ensures
            final(self).wf(),
            final(self)@ == spec_get_key(old(self)@, register_x as int),
    {
        let ghost m0 = self@;
        let mut k: usize = 0;
        while k < KEY_SIZE
            invariant
                m0.inv(),
                m0 == old(self)@,
                register_x < 16,
                k <= KEY_SIZE,
                self@ == m0,
                spec_first_pressed(m0.keys, 0) == spec_first_pressed(m0.keys, k as int),
            decreases KEY_SIZE - k,
        {
            if self.keys[k] == KeyState::Pressed {
                proof {
                    assert(spec_first_pressed(m0.keys, k as int) == k);
                }
                self.registers.set(register_x as usize, k as u8);
                return;
            }
            k = k + 1;
        }
        proof {
            assert(spec_first_pressed(m0.keys, 0) == 16);
        }
        if self.pc >= 2 {
            self.pc = self.pc - 2;
        } else {
            self.pc = self.pc + 0xFFFE;
        }
    }
}

/// Which slot of the host key map reports hex key k: the fixed permutation
/// between the layout order of the host keys and the hex keypad.
pub open spec fn spec_host_slot(k: int) -> int {
    if k == 0x0 {
        13
    } else if k == 0x1 {
        0
    } else if k == 0x2 {
        1
    } else if k == 0x3 {
        2
    } else if k == 0x4 {
        4
    } else if k == 0x5 {
        5
    } else if k == 0x6 {
        6
    } else if k == 0x7 {
        8
    } else if k == 0x8 {
        9
    } else if k == 0x9 {
        10
    } else if k == 0xA {
        12
    } else if k == 0xB {
        14
    } else if k == 0xC {
        3
    } else if k == 0xD {
        7
    } else if k == 0xE {
        11
    } else {
        15
    }
}

/// The key latch after a refresh from the input collaborator: the sixteen
/// host-side states arrive in the layout order of the host key map and are
/// permuted into hex-keypad order.
pub open spec fn spec_update_keys(m: Machine, ks: Seq<KeyState>) -> Machine {
    Machine { keys: Seq::new(KEY_SIZE as nat, |k: int| ks[spec_host_slot(k)]), ..m }
}

/// One fetch: read the big-endian opcode at PC, advance PC by 2, and decode
/// it into the current instruction. Reading past the end of memory is a
/// `MemoryFault`; an unknown pattern is an `InvalidOpcode`; either way the
/// machine is unchanged.
pub open spec fn spec_fetch(m: Machine) -> Result<Machine, Chip8Error> {
    if m.pc + 1 >= MEMORY_SIZE {
        Err(Chip8Error::MemoryFault)
    } else {
        let opcode = ((m.memory[m.pc as int] as u16) << 8u16) | (m.memory[m.pc + 1] as u16);
        match spec_decode(opcode) {
            Ok(inst) => Ok(Machine { pc: (m.pc + 2) as u16, current_instruction: inst, ..m }),
            Err(e) => Err(e),
        }
    }
}

/// One instruction applied to the machine, as the table in the decoder
/// names them. `rnd` is the byte the random source produced; only Random
/// reads it.
pub open spec fn spec_execute(m: Machine, instruction: Instruction, rnd: u8) -> Result<
    Machine,
    Chip8Error,
> {
    match instruction {
        Instruction::Clear => Ok(spec_clear(m)),
        Instruction::Ret => spec_ret(m),
        Instruction::Jump(nnn) => Ok(spec_jump(m, nnn)),
        Instruction::Call(nnn) => spec_call(m, nnn),
        Instruction::SkipEqualByte(x, nn) => Ok(
            spec_skip_if(m, m.registers[x as int] == nn),
        ),
        Instruction::SkipNotEqualByte(x, nn) => Ok(
            spec_skip_if(m, m.registers[x as int] != nn),
        ),
        Instruction::SkipEqualRegisters(x, y) => Ok(
            spec_skip_if(m, m.registers[x as int] == m.registers[y as int]),
        ),
        Instruction::LoadByte(x, nn) => Ok(spec_load_byte(m, x as int, nn)),
        Instruction::AddRegister(x, nn) => Ok(spec_add_register(m, x as int, nn)),
        Instruction::LoadRegister(x, y) => Ok(spec_load_register(m, x as int, y as int)),
        Instruction::Or(x, y) => Ok(spec_or(m, x as int, y as int)),
        Instruction::And(x, y) => Ok(spec_and(m, x as int, y as int)),
        Instruction::Xor(x, y) => Ok(spec_xor(m, x as int, y as int)),
        Instruction::Add(x, y) => Ok(spec_add(m, x as int, y as int)),
        Instruction::Subtract(x, y) => Ok(spec_subtract(m, x as int, y as int)),
        Instruction::Shr(x, y) => Ok(spec_shr(m, x as int, y as int)),
        Instruction::SubtractRev(x, y) => Ok(spec_subtract_rev(m, x as int, y as int)),
        Instruction::Shl(x, y) => Ok(spec_shl(m, x as int, y as int)),
        Instruction::SkipNotEqualRegisters(x, y) => Ok(
            spec_skip_if(m, m.registers[x as int] != m.registers[y as int]),
        ),
        Instruction::LoadI(nnn) => Ok(spec_load_i(m, nnn)),
        Instruction::JumpOffset(x, nnn) => Ok(spec_jump_offset(m, x as int, nnn)),
        Instruction::Random(x, nn) => Ok(spec_random(m, x as int, nn, rnd)),
        Instruction::Draw(x, y, n) => spec_draw(m, x as int, y as int, n as int),
        Instruction::SkipKeyPressed(x) => Ok(spec_skip_key_pressed(m, x as int)),
        Instruction::SkipKeyReleased(x) => Ok(spec_skip_key_released(m, x as int)),
        Instruction::LoadDelayTimer(x) => Ok(spec_load_delay_timer(m, x as int)),
        Instruction::GetKey(x) => Ok(spec_get_key(m, x as int)),
        Instruction::SetDelayTimer(x) => Ok(spec_set_delay_timer(m, x as int)),
        Instruction::SetSoundTimer(x) => Ok(spec_set_sound_timer(m, x as int)),
        Instruction::AddI(x) => Ok(spec_add_i(m, x as int)),
        Instruction::LoadFont(x) => Ok(spec_load_font(m, x as int)),
        Instruction::LoadBcd(x) => spec_load_bcd(m, x as int),
        Instruction::StoreMemory(x) => spec_store_memory(m, x as int),
        Instruction::LoadMemory(x) => spec_load_memory(m, x as int),
    }
}

/// One whole cycle: refresh the key latch, fetch and decode, execute, and
/// run the timer gate. On a fetch or execute error the machine stops as it
/// stood (keys already refreshed) and the timers are not run. `rnd` is the
/// byte the random source produced for this cycle.
pub open spec fn spec_cycle(m: Machine, ks: Seq<KeyState>, now: u64, rnd: u8) -> (
    Machine,
    Result<Option<SoundCommand>, Chip8Error>,
) {
    let m1 = spec_update_keys(m, ks);
    match spec_fetch(m1) {
        Err(e) => (m1, Err(e)),
        Ok(m2) => match spec_execute(m2, m2.current_instruction, rnd) {
            Err(e) => (m2, Err(e)),
            Ok(m3) => {
                let ticked = spec_update_timers(m3, now);
                (ticked.0, Ok(ticked.1))
            },
        },
    }
}

/// Relies on rand::random::<u8>: one byte from the thread-local generator.
/// Nothing is promised of the value; every caller must hold for every byte
/// that may come back.
#[verifier::external_body]
fn random_byte() -> u8 {
    rand::random::<u8>()
}

impl Chip8 {
    /// Refresh the key latch from the sixteen host-side key states, which
    /// arrive in the layout order of the host key map.
    /// Which slot of the host key map reports hex key k.
    fn host_slot(k: usize) -> (r: usize)
        requires
            k < KEY_SIZE,
        ensures
            r as int == spec_host_slot(k as int),
            r < KEY_SIZE,
    {
        if k == 0x0 {
            13
        } else if k == 0x1 {
            0
        } else if k == 0x2 {
            1
        } else if k == 0x3 {
            2
        } else if k == 0x4 {
            4
        } else if k == 0x5 {
            5
        } else if k == 0x6 {
            6
        } else if k == 0x7 {
            8
        } else if k == 0x8 {
            9
        } else if k == 0x9 {
            10
        } else if k == 0xA {
            12
        } else if k == 0xB {
            14
        } else if k == 0xC {
            3
        } else if k == 0xD {
            7
        } else if k == 0xE {
            11
        } else {
            15
        }
    }

    /// Refresh the key latch from the sixteen host-side key states, which
    /// arrive in the layout order of the host key map.
    fn update_keys(&mut self, key_states: [KeyState; 16])
        requires
            old(self).wf(),
        ensures
            final(self).wf(),
            final(self)@ == spec_update_keys(old(self)@, key_states@),
    {
        let mut keys: Vec<KeyState> = Vec::new();
        while keys.len() < KEY_SIZE
            invariant
                keys@.len() <= KEY_SIZE,
                forall|j: int| 0 <= j < keys@.len() ==> keys@[j] == key_states@[spec_host_slot(j)],
            decreases KEY_SIZE - keys@.len(),
        {
            let slot = Self::host_slot(keys.len());
            keys.push(key_states[slot]);
        }
        self.keys = keys;
        proof {
            assert(self@.keys =~= spec_update_keys(old(self)@, key_states@).keys);
            assert(self@ == spec_update_keys(old(self)@, key_states@));
        }
    }

    /// Fetch the big-endian opcode at PC, advance PC past it, and decode it
    /// into the current instruction.
    fn fetch(&mut self) -> (r: Result<(), Chip8Error>)
        requires
            old(self).wf(),
        ensures
            final(self).wf(),
            match spec_fetch(old(self)@) {
                Ok(m2) => r is Ok && final(self)@ == m2 && m2.current_instruction.wf(),
                Err(e) => r == Err::<(), Chip8Error>(e) && final(self)@ == old(self)@,
            },
    {
        if self.pc as usize + 1 >= MEMORY_SIZE {
            return Err(Chip8Error::MemoryFault);
        }
        let pc = self.pc as usize;
        let instruction_most = self.memory[pc] as u16;
        let instruction_least = self.memory[pc + 1] as u16;
        let opcode = (instruction_most << 8u16) | instruction_least;
        match Instruction::from(opcode) {
            Ok(instruction) => {
                self.pc = self.pc + 2;
                self.current_instruction = instruction;
                Ok(())
            },
            Err(e) => Err(e),
        }
    }

    /// Apply one decoded instruction to the machine. `random_value` is the
    /// byte the random source produced; only Random reads it, so callers
    /// that execute any other instruction may pass anything. This is the
    /// whole execution engine, deterministic in its arguments.
    pub fn execute_instruction(&mut self, instruction: Instruction, random_value: u8) -> (r:
        Result<(), Chip8Error>)
        requires
            old(self).wf(),
            instruction.wf(),
        ensures
            final(self).wf(),
            match spec_execute(old(self)@, instruction, random_value) {
                Ok(m2) => r is Ok && final(self)@ == m2,
                Err(e) => r == Err::<(), Chip8Error>(e) && final(self)@ == old(self)@,
            },
    {
        match instruction {
            Instruction::Clear => {
                self.clear();
                Ok(())
            },
            Instruction::Ret => self.ret(),
            Instruction::Jump(nnn) => {
                self.jump(nnn);
                Ok(())
            },
            Instruction::Call(nnn) => self.call(nnn),
            Instruction::SkipEqualByte(x, nn) => {
                self.skip_equal_byte(x, nn);
                Ok(())
            },
            Instruction::SkipNotEqualByte(x, nn) => {
                self.skip_not_equal_byte(x, nn);
                Ok(())
            },
            Instruction::SkipEqualRegisters(x, y) => {
                self.skip_equal_registers(x, y);
                Ok(())
            },
            Instruction::LoadByte(x, nn) => {
                self.load_byte(x, nn);
                Ok(())
            },
            Instruction::AddRegister(x, nn) => {
                self.add_register(x, nn);
                Ok(())
            },
            Instruction::LoadRegister(x, y) => {
                self.load_register(x, y);
                Ok(())
            },
            Instruction::Or(x, y) => {
                self.or(x, y);
                Ok(())
            },
            Instruction::And(x, y) => {
                self.and(x, y);
                Ok(())
            },
            Instruction::Xor(x, y) => {
                self.xor(x, y);
                Ok(())
            },
            Instruction::Add(x, y) => {
                self.add(x, y);
                Ok(())
            },
            Instruction::Subtract(x, y) => {
                self.subtract(x, y);
                Ok(())
            },
            Instruction::Shr(x, y) => {
                self.shr(x, y);
                Ok(())
            },
            Instruction::SubtractRev(x, y) => {
                self.subtract_rev(x, y);
                Ok(())
            },
            Instruction::Shl(x, y) => {
                self.shl(x, y);
                Ok(())
            },
            Instruction::SkipNotEqualRegisters(x, y) => {
                self.skip_not_equal_registers(x, y);
                Ok(())
            },
            Instruction::LoadI(nnn) => {
                self.load_i(nnn);
                Ok(())
            },
            Instruction::JumpOffset(x, nnn) => {
                self.jump_offset(x, nnn);
                Ok(())
            },
            Instruction::Random(x, nn) => {
                self.random(x, nn, random_value);
                Ok(())
            },
            Instruction::Draw(x, y, n) => self.draw(x, y, n),
            Instruction::SkipKeyPressed(x) => {
                self.skip_key_pressed(x);
                Ok(())
            },
            Instruction::SkipKeyReleased(x) => {
                self.skip_key_released(x);
                Ok(())
            },
            Instruction::LoadDelayTimer(x) => {
                self.load_delay_timer(x);
                Ok(())
            },
            Instruction::GetKey(x) => {
                self.get_key(x);
                Ok(())
            },
            Instruction::SetDelayTimer(x) => {
                self.set_delay_timer(x);
                Ok(())
            },
            Instruction::SetSoundTimer(x) => {
                self.set_sound_timer(x);
                Ok(())
            },
            Instruction::AddI(x) => {
                self.add_i(x);
                Ok(())
            },
            Instruction::LoadFont(x) => {
                self.load_font(x);
                Ok(())
            },
            Instruction::LoadBcd(x) => self.load_bcd(x),
            Instruction::StoreMemory(x) => self.store_memory(x),
            Instruction::LoadMemory(x) => self.load_memory(x),
        }
    }

    /// Run one whole cycle at the given clock reading: refresh the key
    /// latch from the host states, fetch, decode and execute one
    /// instruction, then let the timer gate tick. Returns what the audio
    /// collaborator should do, or the fault that stopped the machine; on a
    /// fault the machine stands as it stood when the fault arose, so the
    /// host can read PC and the state for a diagnostic.
    pub fn cycle(&mut self, key_states: [KeyState; 16], now: u64) -> (r: Result<
        Option<SoundCommand>,
        Chip8Error,
    >)
        requires
            old(self).wf(),
        ensures
            final(self).wf(),
            exists|rnd: u8| (final(self)@, r) == spec_cycle(old(self)@, key_states@, now, rnd),
    {
        self.update_keys(key_states);
        if let Err(e) = self.fetch() {
            proof {
                assert((self@, Err::<Option<SoundCommand>, Chip8Error>(e)) == spec_cycle(
                    old(self)@, key_states@, now, 0u8));
            }
            return Err(e);
        }
        let instruction = self.current_instruction;
        let random_value = if let Instruction::Random(_, _) = instruction {
            random_byte()
        } else {
            0
        };
        if let Err(e) = self.execute_instruction(instruction, random_value) {
            proof {
                assert((self@, Err::<Option<SoundCommand>, Chip8Error>(e)) == spec_cycle(
                    old(self)@, key_states@, now, random_value));
            }
            return Err(e);
        }
        let command = self.update_timers(now);
        proof {
            assert((self@, Ok::<Option<SoundCommand>, Chip8Error>(command)) == spec_cycle(
                old(self)@, key_states@, now, random_value));
        }
        Ok(command)
    }
}

} // verus!
