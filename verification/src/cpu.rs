//! The interpreter core: the machine, its cycle and its opcode handlers.

use vstd::prelude::*;
use crate::instruction::{nibble, Chip8Instruction, DecodableInstruction};
use crate::random::random_byte;
use crate::screen::{
    blank_screen, collided_so_far, lemma_draw_done, lemma_draw_row, lemma_draw_start,
    lemma_draw_step, painted,
};
use crate::state::{
    font_set, highest_pressed, lemma_highest_pressed, Fault, MachineState, MAX_ROM_SIZE,
    PROGRAM_START,
};

verus! {

/// The built-in glyphs of the digits 0 to F, five bytes each.
pub const FONT_SET: [u8; 80] = [
    0xF0, 0x90, 0x90, 0x90, 0xF0,
    0x20, 0x60, 0x20, 0x20, 0x70,
    0xF0, 0x10, 0xF0, 0x80, 0xF0,
    0xF0, 0x10, 0xF0, 0x10, 0xF0,
    0x90, 0x90, 0xF0, 0x10, 0x10,
    0xF0, 0x80, 0xF0, 0x10, 0xF0,
    0xF0, 0x80, 0xF0, 0x90, 0xF0,
    0xF0, 0x10, 0x20, 0x40, 0x40,
    0xF0, 0x90, 0xF0, 0x90, 0xF0,
    0xF0, 0x90, 0xF0, 0x10, 0xF0,
    0xF0, 0x90, 0xF0, 0x90, 0x90,
    0xE0, 0x90, 0xE0, 0x90, 0xE0,
    0xF0, 0x80, 0x80, 0x80, 0xF0,
    0xE0, 0x90, 0x90, 0x90, 0xE0,
    0xF0, 0x80, 0xF0, 0x80, 0xF0,
    0xF0, 0x80, 0xF0, 0x80, 0x80,
];

/// What `load_rom` answers to a program that is too large.
pub const ROM_TOO_LARGE: &'static str = "the program does not fit in memory";

/// The machine: memory, registers, timers, call stack, framebuffer and keys.
pub struct Machine {
    pub memory: [u8; 4096],
    pub registers: [u8; 16],
    pub i: u16,
    pub delay_timer: u8,
    pub sound_timer: u8,
    pub pc: usize,
    pub sp: i16,
    pub stack: Vec<u16>,
    pub draw: bool,
    pub screen: [[bool; 32]; 64],
    pub key_map: [bool; 16],
}

impl View for Machine {
    type V = MachineState;

    open spec fn view(&self) -> MachineState {
        MachineState {
            memory: self.memory@,
            registers: self.registers@,
            i: self.i,
            delay_timer: self.delay_timer,
            sound_timer: self.sound_timer,
            pc: self.pc as int,
            sp: self.sp as int,
            stack: self.stack@,
            draw: self.draw,
            screen: Seq::new(64, |x: int| self.screen@[x]@),
            key_map: self.key_map@,
        }
    }
}

/// Construction, program loading and the cycle.
pub trait Chip8Machine: View<V = MachineState> + Sized {
    /// A machine with the font set in memory and everything else at zero.
    fn new() -> (machine: Self)
        ensures
            machine@ == MachineState::initial(),
            machine@.wf(),
    ;

    /// Copies `rom` to address 0x200 and points the program counter there.
    /// A program that does not fit in memory is refused and nothing changes.
    fn load_rom(&mut self, rom: &[u8]) -> (loaded: Result<(), &'static str>)
        ensures
            rom@.len() <= MAX_ROM_SIZE ==> loaded is Ok && final(self)@ == old(self)@.load_rom(
                rom@,
            ),
            rom@.len() > MAX_ROM_SIZE ==> loaded == Err::<(), &'static str>(ROM_TOO_LARGE)
                && final(self)@ == old(self)@,
            old(self)@.wf() ==> final(self)@.wf(),
    ;

    /// One cycle: takes over the keys, lets the timers tick, then fetches and
    /// executes the instruction at the program counter. Returns the
    /// instruction word that was executed.
    fn run(&mut self, key_map: [bool; 16]) -> (raw: u16)
        requires
            old(self)@.wf(),
            old(self)@.fault() is None,
        ensures
            raw == old(self)@.fetch(),
            exists|byte: u8| final(self)@ == #[trigger] old(self)@.cycle(key_map@, byte),
            final(self)@.wf(),
    ;
}

/// Instruction fetch and the step of the program counter.
trait InstructionMachine: View<V = MachineState> + Sized {
    fn fetch_instruction(&self) -> (instruction: Chip8Instruction)
        requires
            self@.wf(),
            self@.fetchable(),
        ensures
            instruction.raw == self@.fetch(),
            instruction.wf(),
    ;

    fn increment_pc(&mut self)
        requires
            old(self)@.pc <= 0xFFFF,
        ensures
            final(self)@ == old(self)@.advance(),
    ;
}

/// The instruction dispatch and one handler for each opcode.
///
/// Register arguments are register indices and must be below 16. A handler
/// that steps the program counter asks that it address an instruction in
/// memory.
pub trait OpCodes: View<V = MachineState> + Sized {
    /// Executes `instruction`: the first pattern that matches selects the
    /// handler, and a word that matches none changes nothing.
    fn run_opcode(&mut self, instruction: Chip8Instruction)
        requires
            old(self)@.ready(),
            instruction.wf(),
            old(self)@.fault_of(instruction.raw) is None,
        ensures
            exists|byte: u8| final(self)@ == #[trigger] old(self)@.execute(instruction.raw, byte),
            final(self)@.wf(),
    ;

    /// 00E0: clears the framebuffer.
    fn clear_screen(&mut self)
        requires
            old(self)@.ready(),
        ensures
            final(self)@ == old(self)@.clear_screen(),
            final(self)@.wf(),
    ;

    /// 00EE: returns to the instruction after the last call.
    fn ret(&mut self)
        requires
            old(self)@.wf(),
            old(self)@.sp >= 0,
        ensures
            final(self)@ == old(self)@.ret(),
            final(self)@.wf(),
            final(self)@.depth() == old(self)@.depth() - 1,
    ;

    /// 1NNN: jumps to `nnn`.
    fn jump(&mut self, nnn: u16)
        requires
            old(self)@.wf(),
        ensures
            final(self)@ == old(self)@.jump(nnn),
            final(self)@.wf(),
    ;

    /// 2NNN: pushes the program counter and jumps to `nnn`.
    fn call(&mut self, nnn: u16)
        requires
            old(self)@.ready(),
            old(self)@.depth() < 16,
        ensures
            final(self)@ == old(self)@.call(nnn),
            final(self)@.wf(),
            final(self)@.depth() == old(self)@.depth() + 1,
    ;

    /// 3XNN: skips the next instruction if VX equals `equals`.
    fn cond_equals(&mut self, x: u8, equals: u8)
        requires
            old(self)@.ready(),
            x < 16,
        ensures
            final(self)@ == old(self)@.cond_equals(x, equals),
            final(self)@.wf(),
    ;

    /// 4XNN: skips the next instruction if VX differs from `equals`.
    fn cond_not_equals(&mut self, x: u8, equals: u8)
        requires
            old(self)@.ready(),
            x < 16,
        ensures
            final(self)@ == old(self)@.cond_not_equals(x, equals),
            final(self)@.wf(),
    ;

    /// 5XY0: skips the next instruction if VX equals VY.
    fn cond_reg_equals(&mut self, x: u8, y: u8)
        requires
            old(self)@.ready(),
            x < 16,
            y < 16,
        ensures
            final(self)@ == old(self)@.cond_reg_equals(x, y),
            final(self)@.wf(),
    ;

    /// 6XNN: sets VX to `nn`.
    fn set_register(&mut self, reg: u8, nn: u8)
        requires
            old(self)@.ready(),
            reg < 16,
        ensures
            final(self)@ == old(self)@.set_register(reg, nn),
            final(self)@.wf(),
    ;

    /// 7XNN: adds `nn` to VX modulo 256 and leaves the flag register alone.
    fn add_value(&mut self, reg: u8, nn: u8)
        requires
            old(self)@.ready(),
            reg < 16,
        ensures
            final(self)@ == old(self)@.add_value(reg, nn),
            final(self)@.wf(),
    ;

    /// 9XY0: skips the next instruction if VX differs from VY.
    fn cond_reg_not_equals(&mut self, x: u8, y: u8)
        requires
            old(self)@.ready(),
            x < 16,
            y < 16,
        ensures
            final(self)@ == old(self)@.cond_reg_not_equals(x, y),
            final(self)@.wf(),
    ;

    /// 8XY0: sets VX to VY.
    fn set_reg(&mut self, x: u8, y: u8)
        requires
            old(self)@.ready(),
            x < 16,
            y < 16,
        ensures
            final(self)@ == old(self)@.set_reg(x, y),
            final(self)@.wf(),
    ;

    /// 8XY1: sets VX to VX or VY.
    fn bitwise_or(&mut self, x: u8, y: u8)
        requires
            old(self)@.ready(),
            x < 16,
            y < 16,
        ensures
            final(self)@ == old(self)@.bitwise_or(x, y),
            final(self)@.wf(),
    ;

    /// 8XY2: sets VX to VX and VY.
    fn bitwise_and(&mut self, x: u8, y: u8)
        requires
            old(self)@.ready(),
            x < 16,
            y < 16,
        ensures
            final(self)@ == old(self)@.bitwise_and(x, y),
            final(self)@.wf(),
    ;

    /// 8XY3: sets VX to VX xor VY.
    fn bitwise_xor(&mut self, x: u8, y: u8)
        requires
            old(self)@.ready(),
            x < 16,
            y < 16,
        ensures
            final(self)@ == old(self)@.bitwise_xor(x, y),
            final(self)@.wf(),
    ;

    /// 8XY4: adds VY to VX modulo 256. VF becomes 1 if the sum is above 255,
    /// else 0; where VX is VF itself, the flag is what stays.
    fn add_reg(&mut self, x: u8, y: u8)
        requires
            old(self)@.ready(),
            x < 16,
            y < 16,
        ensures
            final(self)@ == old(self)@.add_reg(x, y),
            final(self)@.wf(),
            final(self)@.v(0xF) == 1 <==> old(self)@.v(x) + old(self)@.v(y) > 255,
            final(self)@.v(0xF) == 0 <==> old(self)@.v(x) + old(self)@.v(y) <= 255,
            x != 0xF ==> final(self)@.v(x) == (old(self)@.v(x) + old(self)@.v(y)) % 256,
    ;

    /// 8XY5: sets VX to the absolute difference of VX and VY. VF becomes 1
    /// if VX was greater than VY, else 0; where VX is VF itself, the flag is
    /// what stays.
    fn sub_reg(&mut self, x: u8, y: u8)
        requires
            old(self)@.ready(),
            x < 16,
            y < 16,
        ensures
            final(self)@ == old(self)@.sub_reg(x, y),
            final(self)@.wf(),
            final(self)@.v(0xF) == 1 <==> old(self)@.v(x) > old(self)@.v(y),
            final(self)@.v(0xF) == 0 <==> old(self)@.v(x) <= old(self)@.v(y),
            x != 0xF && old(self)@.v(x) >= old(self)@.v(y) ==> final(self)@.v(x) == old(self)@.v(
                x,
            ) - old(self)@.v(y),
            x != 0xF && old(self)@.v(x) < old(self)@.v(y) ==> final(self)@.v(x) == old(self)@.v(y)
                - old(self)@.v(x),
    ;

    /// 8XY6: halves VX. VF becomes the bit that was shifted out, the lowest
    /// bit of VX before the shift.
    fn shr(&mut self, x: u8, y: u8)
        requires
            old(self)@.ready(),
            x < 16,
        ensures
            final(self)@ == old(self)@.shr(x, y),
            final(self)@.wf(),
            final(self)@.v(0xF) == old(self)@.v(x) % 2,
            x != 0xF ==> final(self)@.v(x) == old(self)@.v(x) / 2,
    ;

    /// 8XY7: sets VX to VY - VX modulo 256. VF becomes 1 if VY was greater
    /// than VX, else 0.
    fn subn(&mut self, x: u8, y: u8)
        requires
            old(self)@.ready(),
            x < 16,
            y < 16,
        ensures
            final(self)@ == old(self)@.subn(x, y),
            final(self)@.wf(),
            final(self)@.v(0xF) == 1 <==> old(self)@.v(y) > old(self)@.v(x),
            final(self)@.v(0xF) == 0 <==> old(self)@.v(y) <= old(self)@.v(x),
            x != 0xF ==> final(self)@.v(x) == (old(self)@.v(y) - old(self)@.v(x)) % 256,
    ;

    /// 8XYE: doubles VX modulo 256. VF becomes the bit that was shifted out,
    /// the highest bit of VX before the shift.
    fn shl(&mut self, x: u8, y: u8)
        requires
            old(self)@.ready(),
            x < 16,
        ensures
            final(self)@ == old(self)@.shl(x, y),
            final(self)@.wf(),
            final(self)@.v(0xF) == old(self)@.v(x) / 128,
            x != 0xF ==> final(self)@.v(x) == old(self)@.v(x) * 2 % 256,
    ;

    /// ANNN: sets the index register to `index`.
    fn set_index(&mut self, index: u16)
        requires
            old(self)@.ready(),
        ensures
            final(self)@ == old(self)@.set_index(index),
            final(self)@.wf(),
    ;

    /// BNNN: jumps to `index` plus V0.
    fn jump_plus(&mut self, index: u16)
        requires
            old(self)@.wf(),
            index <= 0xFFF,
        ensures
            final(self)@ == old(self)@.jump_plus(index),
            final(self)@.wf(),
    ;

    /// CXNN: sets VX to a random byte masked with `nn`.
    fn random(&mut self, x: u8, nn: u8)
        requires
            old(self)@.ready(),
            x < 16,
        ensures
            exists|byte: u8| final(self)@ == #[trigger] old(self)@.random_with(x, nn, byte),
            final(self)@.wf(),
    ;

    /// DXYN: draws the `height` bytes at the index register as a sprite at
    /// (VX mod 64, VY mod 32), wrapping around the edges. VF becomes 1 if a
    /// pixel that was on went off, else 0, and the draw signal is raised.
    fn display(&mut self, x: u8, y: u8, height: u8)
        requires
            old(self)@.ready(),
            x < 16,
            y < 16,
            height < 16,
            old(self)@.i + height <= 4096,
        ensures
            final(self)@ == old(self)@.display(x, y, height),
            final(self)@.wf(),
            final(self)@.v(0xF) == 0 || final(self)@.v(0xF) == 1,
            final(self)@.draw,
    ;

    /// EX9E: skips the next instruction if the key in VX is pressed.
    fn if_key(&mut self, x: u8)
        requires
            old(self)@.ready(),
            x < 16,
            old(self)@.v(x) < 16,
        ensures
            final(self)@ == old(self)@.if_key(x),
            final(self)@.wf(),
    ;

    /// EXA1: skips the next instruction if the key in VX is not pressed.
    fn if_not_key(&mut self, x: u8)
        requires
            old(self)@.ready(),
            x < 16,
            old(self)@.v(x) < 16,
        ensures
            final(self)@ == old(self)@.if_not_key(x),
            final(self)@.wf(),
    ;

    /// FX07: sets VX to the delay timer.
    fn get_delay(&mut self, x: u8)
        requires
            old(self)@.ready(),
            x < 16,
        ensures
            final(self)@ == old(self)@.get_delay(x),
            final(self)@.wf(),
    ;

    /// FX0A: if a key is pressed, sets VX to the highest pressed key and goes
    /// on; if none is, changes nothing, so that the instruction runs again.
    fn get_key(&mut self, x: u8)
        requires
            old(self)@.ready(),
            x < 16,
        ensures
            final(self)@ == old(self)@.get_key(x),
            final(self)@.wf(),
            (forall|k: int| 0 <= k < 16 ==> !old(self)@.key_map[k]) ==> final(self)@ == old(self)@,
            (exists|k: int| 0 <= k < 16 && old(self)@.key_map[k]) ==> final(self)@.pc == old(
                self,
            )@.pc + 2,
    ;

    /// FX15: sets the delay timer to VX.
    fn delay_timer(&mut self, x: u8)
        requires
            old(self)@.ready(),
            x < 16,
        ensures
            final(self)@ == old(self)@.delay_timer(x),
            final(self)@.wf(),
    ;

    /// FX18: sets the sound timer to VX.
    fn sound_timer(&mut self, x: u8)
        requires
            old(self)@.ready(),
            x < 16,
        ensures
            final(self)@ == old(self)@.sound_timer(x),
            final(self)@.wf(),
    ;

    /// FX1E: adds VX to the index register modulo 65536.
    fn fx1e(&mut self, x: u8)
        requires
            old(self)@.ready(),
            x < 16,
        ensures
            final(self)@ == old(self)@.fx1e(x),
            final(self)@.wf(),
    ;

    /// FX29: sets the index register to five times VX, the address of the
    /// glyph for the digit in VX.
    fn fontset(&mut self, x: u8)
        requires
            old(self)@.ready(),
            x < 16,
        ensures
            final(self)@ == old(self)@.fontset(x),
            final(self)@.wf(),
    ;

    /// FX55: stores V0 to VX, VX included, in memory at the index register.
    fn reg_dump(&mut self, x: u8)
        requires
            old(self)@.ready(),
            x < 16,
            old(self)@.i + x < 4096,
        ensures
            final(self)@ == old(self)@.reg_dump(x),
            final(self)@.wf(),
    ;

    /// FX65: loads V0 to VX, VX included, from memory at the index register.
    fn reg_load(&mut self, x: u8)
        requires
            old(self)@.ready(),
            x < 16,
            old(self)@.i + x < 4096,
        ensures
            final(self)@ == old(self)@.reg_load(x),
            final(self)@.wf(),
    ;

    /// FX33: stores the three decimal digits of VX in memory at the index
    /// register, hundreds first.
    fn bcd(&mut self, x: u8)
        requires
            old(self)@.ready(),
            x < 16,
            old(self)@.i + 2 < 4096,
        ensures
            final(self)@ == old(self)@.bcd(x),
            final(self)@.wf(),
    ;

    /// What a word that is no instruction does: nothing.
    fn noop(&self);
}

proof fn lemma_low_byte(value: u16)
    by (bit_vector)
    ensures
        value as u8 == value % 256,
{
}

proof fn lemma_shifts(value: u8)
    by (bit_vector)
    ensures
        value >> 1 == value / 2,
        value & 0x01 == value % 2,
        value << 1 == (value as u16 * 2 % 256) as u8,
        (value >> 7) & 0x1 == value / 128,
{
}

proof fn lemma_masks(raw: u16)
    by (bit_vector)
    ensures
        raw & 0xF000 == 0x1000 <==> raw / 0x1000 == 0x1,
        raw & 0xF000 == 0x2000 <==> raw / 0x1000 == 0x2,
        raw & 0xF000 == 0x3000 <==> raw / 0x1000 == 0x3,
        raw & 0xF000 == 0x4000 <==> raw / 0x1000 == 0x4,
        raw & 0xF00F == 0x5000 <==> raw / 0x1000 == 0x5 && raw % 16 == 0,
        raw & 0xF000 == 0x6000 <==> raw / 0x1000 == 0x6,
        raw & 0xF000 == 0x7000 <==> raw / 0x1000 == 0x7,
        raw & 0xF000 == 0x8000 <==> raw / 0x1000 == 0x8,
        raw & 0xF00F == 0x9000 <==> raw / 0x1000 == 0x9 && raw % 16 == 0,
        raw & 0xF000 == 0xA000 <==> raw / 0x1000 == 0xA,
        raw & 0xF000 == 0xB000 <==> raw / 0x1000 == 0xB,
        raw & 0xF000 == 0xC000 <==> raw / 0x1000 == 0xC,
        raw & 0xF000 == 0xD000 <==> raw / 0x1000 == 0xD,
        raw & 0xF0FF == 0xE09E <==> raw / 0x1000 == 0xE && raw % 0x100 == 0x9E,
        raw & 0xF0FF == 0xE0A1 <==> raw / 0x1000 == 0xE && raw % 0x100 == 0xA1,
        raw & 0xF000 == 0xF000 <==> raw / 0x1000 == 0xF,
        raw & 0xF0FF == 0xF033 <==> raw / 0x1000 == 0xF && raw % 0x100 == 0x33,
        raw & 0xF0FF == 0xF055 <==> raw / 0x1000 == 0xF && raw % 0x100 == 0x55,
        raw & 0xF0FF == 0xF065 <==> raw / 0x1000 == 0xF && raw % 0x100 == 0x65,
        raw & 0x0FFF == raw % 0x1000,
        (raw & 0x00FF) as u8 == raw % 0x100,
        (raw & 0x000F) as u8 == raw % 16,
{
}

impl InstructionMachine for Machine {
    fn increment_pc(&mut self) {
        self.pc += 2;
    }

    fn fetch_instruction(&self) -> (instruction: Chip8Instruction) {
        let left: u8 = self.memory[self.pc];
        let right: u8 = self.memory[self.pc + 1];
        Chip8Instruction::new(left, right)
    }
}

impl Chip8Machine for Machine {
    fn new() -> (machine: Self) {
        let mut m = Machine {
            memory: [0;4096],
            registers: [0;16],
            i: 0,
            delay_timer: 0,
            sound_timer: 0,
            pc: 0,
            sp: -1,
            stack: vec![0;16],
            draw: false,
            screen: [[false;32];64],
            key_map: [false;16],
        };
        assert(FONT_SET@ =~= font_set());
        assert(m@.screen =~~= blank_screen());
        for i in 0..80
            invariant
                forall|a: int| 0 <= a < i ==> m.memory@[a] == font_set()[a],
                forall|a: int| i <= a < 4096 ==> m.memory@[a] == 0,
                m.registers@ == Seq::new(16, |k: int| 0u8),
                m.i == 0,
                m.delay_timer == 0,
                m.sound_timer == 0,
                m.pc == 0,
                m.sp == -1,
                m.stack@ == Seq::new(16, |k: int| 0u16),
                !m.draw,
                m@.screen == blank_screen(),
                m.key_map@ == Seq::new(16, |k: int| false),
        {
            m.memory[i] = FONT_SET[i];
        }
        assert(m@.memory =~= MachineState::initial().memory);
        m
    }

    fn load_rom(&mut self, rom: &[u8]) -> (loaded: Result<(), &'static str>) {
        if rom.len() > MAX_ROM_SIZE {
            return Err(ROM_TOO_LARGE);
        }
        let mem_prefix = PROGRAM_START;
        let mut i: usize = 0;
        while i < rom.len()
            invariant
                i <= rom@.len() <= MAX_ROM_SIZE,
                mem_prefix == PROGRAM_START,
                self@ == (MachineState {
                    memory: Seq::new(
                        4096,
                        |a: int|
                            if 0x200 <= a < 0x200 + i {
                                rom@[a - 0x200]
                            } else {
                                old(self)@.memory[a]
                            },
                    ),
                    ..old(self)@
                }),
            decreases rom@.len() - i,
        {
            let instruction = rom[i];
            self.memory[mem_prefix + i] = instruction;
            i += 1;
        }
        self.pc = PROGRAM_START;
        Ok(())
    }

    fn run(&mut self, key_map: [bool; 16]) -> (raw: u16) {
        self.key_map = key_map;
        if self.delay_timer > 0 {
            self.delay_timer -= 1;
        }
        if self.sound_timer > 0 {
            self.sound_timer -= 1;
        }
        let ghost ticked = self@;
        assert(ticked == old(self)@.tick(key_map@));
        let instruction = self.fetch_instruction();
        let ret: u16 = instruction.raw;
        self.run_opcode(instruction);
        proof {
            let byte = choose|byte: u8| self@ == #[trigger] ticked.execute(ret, byte);
            assert(self@ == old(self)@.cycle(key_map@, byte));
        }
        ret
    }
}

/// A new machine with `rom` loaded at address 0x200 and the program counter
/// there. A program of more than 3584 bytes does not fit and is refused.
pub fn load_rom(rom: &[u8]) -> (loaded: Result<Machine, &'static str>)
    ensures
        match loaded {
            Ok(machine) => rom@.len() <= MAX_ROM_SIZE && machine@ == MachineState::initial().load_rom(
                rom@,
            ) && machine@.wf(),
            Err(reason) => rom@.len() > MAX_ROM_SIZE && reason == ROM_TOO_LARGE,
        },
{
    let mut machine = Machine::new();
    match machine.load_rom(rom) {
        Ok(()) => Ok(machine),
        Err(reason) => Err(reason),
    }
}

impl Machine {
    /// Why the next cycle cannot run, if it cannot: the program counter has
    /// left memory, or the instruction it addresses would return with an
    /// empty stack, call with a full one, reach beyond memory through the
    /// index register, or test a key that does not exist.
    pub fn fault(&self) -> (fault: Option<Fault>)
        requires
            self@.wf(),
        ensures
            fault == self@.fault(),
    {
        if self.pc >= 4095 {
            return Some(Fault::PcOutOfBounds);
        }
        let instruction = self.fetch_instruction();
        let raw = instruction.raw;
        let x = instruction.parts[1];
        let n = instruction.parts[3];
        let index = self.i as usize;
        proof {
            lemma_masks(raw);
        }
        if raw == 0x00EE {
            if self.sp < 0 {
                Some(Fault::StackUnderflow)
            } else {
                None
            }
        } else if instruction.match_masked(0xF000, 0x2000) {
            if self.sp >= 15 {
                Some(Fault::StackOverflow)
            } else {
                None
            }
        } else if instruction.match_masked(0xF000, 0xD000) {
            if index + n as usize > 4096 {
                Some(Fault::AddressOutOfBounds)
            } else {
                None
            }
        } else if instruction.match_masked(0xF0FF, 0xE09E) || instruction.match_masked(
            0xF0FF,
            0xE0A1,
        ) {
            if self.registers[x as usize] >= 16 {
                Some(Fault::KeyOutOfBounds)
            } else {
                None
            }
        } else if instruction.match_masked(0xF0FF, 0xF033) {
            if index + 2 >= 4096 {
                Some(Fault::AddressOutOfBounds)
            } else {
                None
            }
        } else if instruction.match_masked(0xF0FF, 0xF055) || instruction.match_masked(
            0xF0FF,
            0xF065,
        ) {
            if index + x as usize >= 4096 {
                Some(Fault::AddressOutOfBounds)
            } else {
                None
            }
        } else {
            None
        }
    }

    /// One cycle if the machine can run one: `run` where `fault` finds
    /// nothing, and otherwise the fault, with the machine left as it was.
    pub fn try_run(&mut self, key_map: [bool; 16]) -> (outcome: Result<u16, Fault>)
        requires
            old(self)@.wf(),
        ensures
            match outcome {
                Ok(raw) => old(self)@.fault() is None && raw == old(self)@.fetch() && exists|
                    byte: u8,
                | final(self)@ == #[trigger] old(self)@.cycle(key_map@, byte),
                Err(fault) => old(self)@.fault() == Some(fault) && final(self)@ == old(self)@,
            },
            final(self)@.wf(),
    {
        match self.fault() {
            Some(fault) => Err(fault),
            None => Ok(self.run(key_map)),
        }
    }

    /// Takes the draw signal: says whether a draw has happened since the
    /// signal was last taken, and lowers it.
    pub fn take_draw(&mut self) -> (pending: bool)
        ensures
            pending == old(self)@.draw,
            final(self)@ == (MachineState { draw: false, ..old(self)@ }),
    {
        let pending = self.draw;
        self.draw = false;
        pending
    }

    /// CXNN for a given random byte: sets VX to `byte` masked with `nn`.
    pub fn random_with(&mut self, x: u8, nn: u8, byte: u8)
        requires
            old(self)@.ready(),
            x < 16,
        ensures
            final(self)@ == old(self)@.random_with(x, nn, byte),
            final(self)@.wf(),
    {
        self.registers[x as usize] = byte & nn;
        self.increment_pc();
    }
}

impl OpCodes for Machine {
    fn run_opcode(&mut self, instruction: Chip8Instruction) {
        let raw = instruction.raw;
        let x = instruction.parts[1];
        let y = instruction.parts[2];
        let n = instruction.parts[3];
        let ghost mut byte: u8 = 0;
        proof {
            lemma_masks(raw);
            assert(x == nibble(raw, 1) && y == nibble(raw, 2) && n == nibble(raw, 3));
        }
        if raw == 0x00E0 {
            self.clear_screen()
        } else if raw == 0x00EE {
            self.ret()
        } else if instruction.match_masked(0xF000, 0x1000) {
            self.jump(raw & 0x0FFF)
        } else if instruction.match_masked(0xF000, 0xB000) {
            self.jump_plus(raw & 0x0FFF)
        } else if instruction.match_masked(0xF000, 0xC000) {
            self.random(x, (raw & 0x00FF) as u8);
            proof {
                byte = choose|byte: u8|
                    self@ == #[trigger] old(self)@.random_with(x, (raw % 0x100) as u8, byte);
            }
        } else if instruction.match_masked(0xF000, 0x6000) {
            self.set_register(x, (raw & 0x00FF) as u8)
        } else if instruction.match_masked(0xF000, 0x7000) {
            self.add_value(x, (raw & 0x00FF) as u8)
        } else if instruction.match_masked(0xF000, 0xA000) {
            self.set_index(raw & 0x0FFF)
        } else if instruction.match_masked(0xF000, 0xD000) {
            self.display(x, y, n)
        } else if instruction.match_masked(0xF0FF, 0xE09E) {
            self.if_key(x)
        } else if instruction.match_masked(0xF0FF, 0xE0A1) {
            self.if_not_key(x)
        } else if instruction.match_masked(0xF000, 0x3000) {
            self.cond_equals(x, (raw & 0x00FF) as u8)
        } else if instruction.match_masked(0xF000, 0x4000) {
            self.cond_not_equals(x, (raw & 0x00FF) as u8)
        } else if instruction.match_masked(0xF00F, 0x5000) {
            self.cond_reg_equals(x, y)
        } else if instruction.match_masked(0xF000, 0x8000) {
            match (raw & 0x000F) as u8 {
                0x0 => self.set_reg(x, y),
                0x1 => self.bitwise_or(x, y),
                0x2 => self.bitwise_and(x, y),
                0x3 => self.bitwise_xor(x, y),
                0x4 => self.add_reg(x, y),
                0x5 => self.sub_reg(x, y),
                0x6 => self.shr(x, y),
                0x7 => self.subn(x, y),
                0xE => self.shl(x, y),
                _ => self.noop(),
            }
        } else if instruction.match_masked(0xF000, 0xF000) {
            match (raw & 0x00FF) as u8 {
                0x07 => self.get_delay(x),
                0x0A => self.get_key(x),
                0x15 => self.delay_timer(x),
                0x18 => self.sound_timer(x),
                0x1E => self.fx1e(x),
                0x29 => self.fontset(x),
                0x55 => self.reg_dump(x),
                0x65 => self.reg_load(x),
                0x33 => self.bcd(x),
                _ => self.noop(),
            }
        } else if instruction.match_masked(0xF00F, 0x9000) {
            self.cond_reg_not_equals(x, y)
        } else if instruction.match_masked(0xF000, 0x2000) {
            self.call(raw & 0x0FFF)
        } else {
            self.noop()
        }
        assert(self@ == old(self)@.execute(raw, byte));
    }

    fn clear_screen(&mut self) {
        for x in 0..64
            invariant
                forall|px: int, py: int|
                    0 <= px < x && 0 <= py < 32 ==> self.screen@[px]@[py] == false,
                self@ == (MachineState { screen: self@.screen, ..old(self)@ }),
        {
            for y in 0..32
                invariant
                    0 <= x < 64,
                    forall|px: int, py: int|
                        0 <= px < x && 0 <= py < 32 ==> self.screen@[px]@[py] == false,
                    forall|py: int| 0 <= py < y ==> self.screen@[x as int]@[py] == false,
                    self@ == (MachineState { screen: self@.screen, ..old(self)@ }),
            {
                self.screen[x][y] = false;
            }
        }
        assert(self@.screen =~~= blank_screen());
        self.increment_pc();
    }

    fn jump(&mut self, target: u16) {
        self.pc = target as usize;
    }

    fn call(&mut self, target: u16) {
        self.sp += 1;
        self.stack[self.sp as usize] = self.pc as u16;
        self.pc = target as usize;
    }

    fn ret(&mut self) {
        self.pc = self.stack[self.sp as usize] as usize;
        self.sp -= 1;
        self.increment_pc();
    }

    fn set_register(&mut self, x: u8, nn: u8) {
        self.registers[x as usize] = nn;
        self.increment_pc();
    }

    fn jump_plus(&mut self, index: u16) {
        self.pc = (index + self.registers[0x0] as u16) as usize;
    }

    fn random(&mut self, x: u8, nn: u8) {
        let random_number: u8 = random_byte();
        self.random_with(x, nn, random_number);
    }

    fn add_value(&mut self, x: u8, nn: u8) {
        let result: u16 = (self.registers[x as usize] as u16) + (nn as u16);
        proof {
            lemma_low_byte(result);
        }
        self.registers[x as usize] = #[verifier::truncate] (result as u8);
        self.increment_pc();
    }

    fn set_index(&mut self, nnn: u16) {
        self.i = nnn;
        self.increment_pc();
    }

    fn cond_equals(&mut self, x: u8, equals: u8) {
        if self.registers[x as usize] == equals {
            self.increment_pc();
        }
        self.increment_pc();
    }

    fn cond_not_equals(&mut self, x: u8, equals: u8) {
        if self.registers[x as usize] != equals {
            self.increment_pc();
        }
        self.increment_pc();
    }

    fn cond_reg_equals(&mut self, x: u8, y: u8) {
        if self.registers[x as usize] == self.registers[y as usize] {
            self.increment_pc();
        }
        self.increment_pc();
    }

    fn cond_reg_not_equals(&mut self, x: u8, y: u8) {
        if self.registers[x as usize] != self.registers[y as usize] {
            self.increment_pc();
        }
        self.increment_pc();
    }

    fn set_reg(&mut self, x: u8, y: u8) {
        self.registers[x as usize] = self.registers[y as usize];
        self.increment_pc();
    }

    fn bitwise_or(&mut self, x: u8, y: u8) {
        self.registers[x as usize] = self.registers[x as usize] | self.registers[y as usize];
        self.increment_pc();
    }

    fn bitwise_and(&mut self, x: u8, y: u8) {
        self.registers[x as usize] = self.registers[x as usize] & self.registers[y as usize];
        self.increment_pc();
    }

    fn bitwise_xor(&mut self, x: u8, y: u8) {
        self.registers[x as usize] = self.registers[x as usize] ^ self.registers[y as usize];
        self.increment_pc();
    }

    fn add_reg(&mut self, x: u8, y: u8) {
        let result: u16 = (self.registers[x as usize] as u16) + (self.registers[y as usize] as u16);
        proof {
            lemma_low_byte(result);
        }
        self.registers[x as usize] = #[verifier::truncate] (result as u8);
        if result > 0xFF {
            self.registers[0xF] = 0x1;
        } else {
            self.registers[0xF] = 0x0;
        }
        self.increment_pc();
    }

    fn sub_reg(&mut self, x: u8, y: u8) {
        let minuend = self.registers[x as usize];
        let subtrahend = self.registers[y as usize];
        if minuend > subtrahend {
            self.registers[x as usize] = minuend - subtrahend;
            self.registers[0xF] = 0x1;
        } else {
            self.registers[x as usize] = subtrahend - minuend;
            self.registers[0xF] = 0x0;
        }
        self.increment_pc();
    }

    fn shr(&mut self, x: u8, _y: u8) {
        let value = self.registers[x as usize];
        proof {
            lemma_shifts(value);
        }
        self.registers[x as usize] = value >> 1;
        self.registers[0xF] = value & 0x01;
        self.increment_pc();
    }

    fn subn(&mut self, x: u8, y: u8) {
        let subtrahend = self.registers[x as usize];
        let minuend = self.registers[y as usize];
        self.registers[x as usize] = minuend.wrapping_sub(subtrahend);
        if minuend > subtrahend {
            self.registers[0xF] = 0x1;
        } else {
            self.registers[0xF] = 0x0;
        }
        self.increment_pc();
    }

    fn shl(&mut self, x: u8, _y: u8) {
        let value = self.registers[x as usize];
        proof {
            lemma_shifts(value);
        }
        self.registers[x as usize] = value << 1;
        self.registers[0xF] = (value >> 7) & 0x1;
        self.increment_pc();
    }

    fn get_delay(&mut self, x: u8) {
        self.registers[x as usize] = self.delay_timer;
        self.increment_pc();
    }

    fn get_key(&mut self, x: u8) {
        let mut is_key_pressed = false;
        let mut key_pressed: usize = 0x0;

        for i in 0x0..0x10
            invariant
                key_pressed < 16,
                self@ == old(self)@,
                highest_pressed(self@.key_map, i as int) == if is_key_pressed {
                    key_pressed as int
                } else {
                    -1
                },
        {
            if self.key_map[i] {
                is_key_pressed = true;
                key_pressed = i;
            }
        }

        proof {
            lemma_highest_pressed(self@.key_map, 16);
        }
        if is_key_pressed {
            self.registers[x as usize] = key_pressed as u8;
            self.increment_pc();
        }
    }

    fn if_key(&mut self, x: u8) {
        if self.key_map[self.registers[x as usize] as usize] {
            self.increment_pc();
        }
        self.increment_pc();
    }

    fn if_not_key(&mut self, x: u8) {
        if !self.key_map[self.registers[x as usize] as usize] {
            self.increment_pc();
        }
        self.increment_pc();
    }

    fn delay_timer(&mut self, x: u8) {
        self.delay_timer = self.registers[x as usize];
        self.increment_pc();
    }

    fn sound_timer(&mut self, x: u8) {
        self.sound_timer = self.registers[x as usize];
        self.increment_pc();
    }

    fn fx1e(&mut self, x: u8) {
        self.i = self.i.wrapping_add(self.registers[x as usize] as u16);
        self.increment_pc();
    }

    fn fontset(&mut self, x: u8) {
        let font_index = self.registers[x as usize];
        self.i = font_index as u16 * 5;
        self.increment_pc();
    }

    fn reg_dump(&mut self, x: u8) {
        let base = self.i as usize;
        for i in 0..((x + 1) as usize)
            invariant
                x < 16,
                base == old(self)@.i,
                base + x < 4096,
                self@ == (MachineState {
                    memory: Seq::new(
                        4096,
                        |a: int|
                            if base <= a < base + i {
                                old(self)@.registers[a - base]
                            } else {
                                old(self)@.memory[a]
                            },
                    ),
                    ..old(self)@
                }),
        {
            self.memory[base + i] = self.registers[i];
        }
        self.increment_pc();
    }

    fn reg_load(&mut self, x: u8) {
        let base = self.i as usize;
        for i in 0..((x + 1) as usize)
            invariant
                x < 16,
                base == old(self)@.i,
                base + x < 4096,
                self@ == (MachineState {
                    registers: Seq::new(
                        16,
                        |k: int|
                            if k < i {
                                old(self)@.memory[base + k]
                            } else {
                                old(self)@.registers[k]
                            },
                    ),
                    ..old(self)@
                }),
        {
            self.registers[i] = self.memory[base + i];
        }
        self.increment_pc();
    }

    fn bcd(&mut self, x: u8) {
        let value = self.registers[x as usize];
        let base = self.i as usize;
        self.memory[base] = value / 100;
        self.memory[base + 1] = (value / 10) % 10;
        self.memory[base + 2] = value % 10;
        self.increment_pc();
    }

    fn display(&mut self, x: u8, y: u8, height: u8) {
        let x_start = self.registers[x as usize] % 64;
        let y_start = self.registers[y as usize] % 32;
        let base = self.i as usize;
        let ghost before = self@;
        let ghost sprite = before.sprite(height);
        let ghost x0 = x_start as int;
        let ghost y0 = y_start as int;
        let mut collided = false;
        proof {
            lemma_draw_start(before.screen, sprite, x0, y0);
        }

        for row in 0..(height as usize)
            invariant
                height < 16,
                base + height <= 4096,
                x_start < 64,
                y_start < 32,
                x0 == x_start,
                y0 == y_start,
                before.wf(),
                sprite.len() == height,
                forall|k: int| 0 <= k < height ==> sprite[k] == self.memory@[base + k],
                self@ == (MachineState { screen: self@.screen, ..before }),
                painted(self@.screen, before.screen, sprite, x0, y0, row as int, 0),
                collided == collided_so_far(before.screen, sprite, x0, y0, row as int, 0),
        {
            let sprite_byte = self.memory[base + row];
            for col in 0..8usize
                invariant
                    height < 16,
                    row < height,
                    x_start < 64,
                    y_start < 32,
                    x0 == x_start,
                    y0 == y_start,
                    before.wf(),
                    sprite.len() == height,
                    sprite_byte == sprite[row as int],
                    self@ == (MachineState { screen: self@.screen, ..before }),
                    painted(self@.screen, before.screen, sprite, x0, y0, row as int, col as int),
                    collided == collided_so_far(
                        before.screen,
                        sprite,
                        x0,
                        y0,
                        row as int,
                        col as int,
                    ),
            {
                let x_index = ((x_start + (col as u8)) % 64) as usize;
                let y_index = ((y_start + (row as u8)) % 32) as usize;
                let ghost now = self@.screen;
                let bit = ((sprite_byte >> (7 - col as u8)) & 0x01) == 0x01;
                if bit {
                    if self.screen[x_index][y_index] {
                        collided = true;
                    }
                    self.screen[x_index][y_index] = !self.screen[x_index][y_index];
                }
                proof {
                    lemma_draw_step(
                        now,
                        self@.screen,
                        before.screen,
                        sprite,
                        x0,
                        y0,
                        row as int,
                        col as int,
                        bit,
                    );
                }
            }
            proof {
                lemma_draw_row(self@.screen, before.screen, sprite, x0, y0, row as int);
            }
        }
        proof {
            lemma_draw_done(self@.screen, before.screen, sprite, x0, y0);
        }
        self.registers[0xF] = if collided { 0x1 } else { 0x0 };
        self.draw = true;
        self.increment_pc();
    }

    fn noop(&self) {
    }
}

} // verus!
