//! The mathematical model of the machine: its state as sequences and
//! integers, and the effect of every opcode as a function from state to state.

use vstd::prelude::*;
use crate::instruction::{nibble, word_of};
use crate::screen::{blank_screen, draw_sprite, screen_wf, sprite_collides};

verus! {

/// Address at which a program is loaded and starts.
pub const PROGRAM_START: usize = 0x200;

/// The largest program that fits between `PROGRAM_START` and the end of memory.
pub const MAX_ROM_SIZE: usize = 3584;

/// The built-in glyphs of the digits 0 to F, five bytes each.
pub open spec fn font_set() -> Seq<u8> {
    seq![
        0xF0u8, 0x90, 0x90, 0x90, 0xF0,
        0x20, 0x60, 0x20, 0x20, 0x70,
        0xF0, 0x10, 0xF0, 0x80, 0xF0,
        0xF0, 0x10, 0xF0, 0x10, 0xF0,
        0x90, 0x90, 0xF0, 0x10, 0x10,
        0xF0, 0x80, 0xF0, 0x10, 0xF0,
        0xF0, 0x80, 0xF0, 0x90, 0xF0,
        0xF0, 0x10, 0x20, 0x40, 0x40,
        0xF0, 0x90, 0xF0, 0x90, 0xF0,
        0xF0, 0x90, 0xF0, 0x10, 0xF0,
        0xF0, 0x90, 0xF0, 0x90, 0x90,
        0xE0, 0x90, 0xE0, 0x90, 0xE0,
        0xF0, 0x80, 0x80, 0x80, 0xF0,
        0xE0, 0x90, 0x90, 0x90, 0xE0,
        0xF0, 0x80, 0xF0, 0x80, 0xF0,
        0xF0, 0x80, 0xF0, 0x80, 0x80,
    ]
}

/// The highest index below `n` at which `keys` is set, or -1 if there is none.
pub open spec fn highest_pressed(keys: Seq<bool>, n: int) -> int
    decreases n,
{
    if n <= 0 {
        -1
    } else if keys[n - 1] {
        n - 1
    } else {
        highest_pressed(keys, n - 1)
    }
}

/// With no key pressed `highest_pressed` is -1, and otherwise it is a pressed
/// key with none pressed above it.
pub proof fn lemma_highest_pressed(keys: Seq<bool>, n: int)
    requires
        0 <= n <= keys.len(),
    ensures
        -1 <= highest_pressed(keys, n) < n,
        highest_pressed(keys, n) == -1 <==> forall|k: int| 0 <= k < n ==> !keys[k],
        highest_pressed(keys, n) >= 0 ==> keys[highest_pressed(keys, n)],
        forall|k: int| highest_pressed(keys, n) < k < n ==> !keys[k],
    decreases n,
{
    if n > 0 {
        lemma_highest_pressed(keys, n - 1);
    }
}

/// A condition under which a cycle has no defined continuation.
#[derive(Clone, Copy, Debug, PartialEq, Eq, Structural)]
pub enum Fault {
    /// The program counter does not address a whole instruction in memory.
    PcOutOfBounds,
    /// A return with an empty call stack.
    StackUnderflow,
    /// A call with sixteen return addresses already on the stack.
    StackOverflow,
    /// A memory access through the index register that leaves memory.
    AddressOutOfBounds,
    /// A key test on a register that holds no key index.
    KeyOutOfBounds,
}

/// The whole state of the machine.
#[verifier::ext_equal]
pub struct MachineState {
    /// 4096 bytes.
    pub memory: Seq<u8>,
    /// The registers V0 to VF.
    pub registers: Seq<u8>,
    /// The index register.
    pub i: u16,
    pub delay_timer: u8,
    pub sound_timer: u8,
    /// The program counter.
    pub pc: int,
    /// Index of the top of the call stack, -1 when it is empty.
    pub sp: int,
    /// The sixteen slots of the call stack.
    pub stack: Seq<u16>,
    /// Set by a draw, for the display to pick up.
    pub draw: bool,
    /// 64 columns of 32 pixels: `screen[x][y]`.
    pub screen: Seq<Seq<bool>>,
    /// The sixteen keys, `true` while pressed.
    pub key_map: Seq<bool>,
}

impl MachineState {
    /// Every part has its fixed size and the stack pointer is in range.
    pub open spec fn wf(self) -> bool {
        &&& self.memory.len() == 4096
        &&& self.registers.len() == 16
        &&& self.stack.len() == 16
        &&& -1 <= self.sp < 16
        &&& 0 <= self.pc
        &&& screen_wf(self.screen)
        &&& self.key_map.len() == 16
    }

    /// The state of a new machine: the font set at address 0, all else zero
    /// and the stack empty.
    pub open spec fn initial() -> Self {
        MachineState {
            memory: Seq::new(4096, |a: int| if a < 80 { font_set()[a] } else { 0u8 }),
            registers: Seq::new(16, |k: int| 0u8),
            i: 0,
            delay_timer: 0,
            sound_timer: 0,
            pc: 0,
            sp: -1,
            stack: Seq::new(16, |k: int| 0u16),
            draw: false,
            screen: blank_screen(),
            key_map: Seq::new(16, |k: int| false),
        }
    }

    /// The state with `rom` copied to address 0x200 and the program counter
    /// set there.
    pub open spec fn load_rom(self, rom: Seq<u8>) -> Self {
        MachineState {
            memory: Seq::new(
                4096,
                |a: int| if 0x200 <= a < 0x200 + rom.len() { rom[a - 0x200] } else { self.memory[a] },
            ),
            pc: 0x200,
            ..self
        }
    }

    /// Number of return addresses on the call stack.
    pub open spec fn depth(self) -> int {
        self.sp + 1
    }

    /// The value of register `x`.
    pub open spec fn v(self, x: u8) -> u8 {
        self.registers[x as int]
    }

    /// The state with register `x` set to `value`.
    pub open spec fn write(self, x: u8, value: u8) -> Self {
        MachineState { registers: self.registers.update(x as int, value), ..self }
    }

    /// The state with the flag register set to 1 if `flag` holds, else to 0.
    pub open spec fn with_flag(self, flag: bool) -> Self {
        MachineState { registers: self.registers.update(0xF, if flag { 1u8 } else { 0u8 }), ..self }
    }

    /// The state with the program counter moved to the next instruction.
    pub open spec fn advance(self) -> Self {
        MachineState { pc: self.pc + 2, ..self }
    }

    /// The state with the program counter moved past the next instruction if
    /// `skip` holds, else to the next instruction.
    pub open spec fn skip_if(self, skip: bool) -> Self {
        MachineState { pc: self.pc + if skip { 4int } else { 2int }, ..self }
    }

    /// 00E0: every pixel off.
    pub open spec fn clear_screen(self) -> Self {
        MachineState { screen: blank_screen(), ..self }.advance()
    }

    /// 00EE: back to the instruction after the call on top of the stack.
    pub open spec fn ret(self) -> Self {
        MachineState { pc: self.stack[self.sp] + 2, sp: self.sp - 1, ..self }
    }

    /// 1NNN.
    pub open spec fn jump(self, nnn: u16) -> Self {
        MachineState { pc: nnn as int, ..self }
    }

    /// 2NNN: the address of the call itself goes on the stack.
    pub open spec fn call(self, nnn: u16) -> Self {
        MachineState {
            sp: self.sp + 1,
            stack: self.stack.update(self.sp + 1, self.pc as u16),
            pc: nnn as int,
            ..self
        }
    }

    /// 3XNN.
    pub open spec fn cond_equals(self, x: u8, nn: u8) -> Self {
        self.skip_if(self.v(x) == nn)
    }

    /// 4XNN.
    pub open spec fn cond_not_equals(self, x: u8, nn: u8) -> Self {
        self.skip_if(self.v(x) != nn)
    }

    /// 5XY0.
    pub open spec fn cond_reg_equals(self, x: u8, y: u8) -> Self {
        self.skip_if(self.v(x) == self.v(y))
    }

    /// 9XY0.
    pub open spec fn cond_reg_not_equals(self, x: u8, y: u8) -> Self {
        self.skip_if(self.v(x) != self.v(y))
    }

    /// 6XNN.
    pub open spec fn set_register(self, x: u8, nn: u8) -> Self {
        self.write(x, nn).advance()
    }

    /// 7XNN: addition modulo 256, the flag register untouched.
    pub open spec fn add_value(self, x: u8, nn: u8) -> Self {
        self.write(x, ((self.v(x) + nn) % 256) as u8).advance()
    }

    /// 8XY0.
    pub open spec fn set_reg(self, x: u8, y: u8) -> Self {
        self.write(x, self.v(y)).advance()
    }

    /// 8XY1.
    pub open spec fn bitwise_or(self, x: u8, y: u8) -> Self {
        self.write(x, self.v(x) | self.v(y)).advance()
    }

    /// 8XY2.
    pub open spec fn bitwise_and(self, x: u8, y: u8) -> Self {
        self.write(x, self.v(x) & self.v(y)).advance()
    }

    /// 8XY3.
    pub open spec fn bitwise_xor(self, x: u8, y: u8) -> Self {
        self.write(x, self.v(x) ^ self.v(y)).advance()
    }

    /// 8XY4: the sum modulo 256 in VX, the carry in VF.
    pub open spec fn add_reg(self, x: u8, y: u8) -> Self {
        let sum = self.v(x) + self.v(y);
        self.write(x, (sum % 256) as u8).with_flag(sum > 255).advance()
    }

    /// 8XY5: the absolute difference in VX, and VF says whether VX was the
    /// greater.
    pub open spec fn sub_reg(self, x: u8, y: u8) -> Self {
        let a = self.v(x);
        let b = self.v(y);
        self.write(x, (if a > b { a - b } else { b - a }) as u8).with_flag(a > b).advance()
    }

    /// 8XY6: VX halved, the bit shifted out in VF.
    pub open spec fn shr(self, x: u8, y: u8) -> Self {
        let a = self.v(x);
        self.write(x, a / 2).with_flag(a % 2 == 1).advance()
    }

    /// 8XY7: VY - VX modulo 256 in VX, and VF says whether VY was the greater.
    pub open spec fn subn(self, x: u8, y: u8) -> Self {
        let a = self.v(x);
        let b = self.v(y);
        self.write(x, ((b - a) % 256) as u8).with_flag(b > a).advance()
    }

    /// 8XYE: VX doubled modulo 256, the bit shifted out in VF.
    pub open spec fn shl(self, x: u8, y: u8) -> Self {
        let a = self.v(x);
        self.write(x, (a * 2 % 256) as u8).with_flag(a >= 128).advance()
    }

    /// ANNN.
    pub open spec fn set_index(self, nnn: u16) -> Self {
        MachineState { i: nnn, ..self }.advance()
    }

    /// BNNN.
    pub open spec fn jump_plus(self, nnn: u16) -> Self {
        MachineState { pc: nnn + self.v(0), ..self }
    }

    /// CXNN, for the random byte `byte`.
    pub open spec fn random_with(self, x: u8, nn: u8, byte: u8) -> Self {
        self.write(x, byte & nn).advance()
    }

    /// The `n` bytes of memory at the index register.
    pub open spec fn sprite(self, n: u8) -> Seq<u8> {
        self.memory.subrange(self.i as int, self.i + n)
    }

    /// DXYN: the sprite XOR-ed onto the framebuffer at (VX mod 64, VY mod 32),
    /// the collision in VF, and the draw signal raised.
    pub open spec fn display(self, x: u8, y: u8, n: u8) -> Self {
        let x0 = self.v(x) as int % 64;
        let y0 = self.v(y) as int % 32;
        let sprite = self.sprite(n);
        MachineState {
            screen: draw_sprite(self.screen, sprite, x0, y0),
            draw: true,
            ..self
        }.with_flag(sprite_collides(self.screen, sprite, x0, y0)).advance()
    }

    /// EX9E.
    pub open spec fn if_key(self, x: u8) -> Self {
        self.skip_if(self.key_map[self.v(x) as int])
    }

    /// EXA1.
    pub open spec fn if_not_key(self, x: u8) -> Self {
        self.skip_if(!self.key_map[self.v(x) as int])
    }

    /// FX07.
    pub open spec fn get_delay(self, x: u8) -> Self {
        self.write(x, self.delay_timer).advance()
    }

    /// FX0A: with a key pressed, the highest pressed key goes to VX and the
    /// program goes on; with none, nothing changes.
    pub open spec fn get_key(self, x: u8) -> Self {
        let key = highest_pressed(self.key_map, 16);
        if key >= 0 {
            self.write(x, key as u8).advance()
        } else {
            self
        }
    }

    /// FX15.
    pub open spec fn delay_timer(self, x: u8) -> Self {
        MachineState { delay_timer: self.v(x), ..self }.advance()
    }

    /// FX18.
    pub open spec fn sound_timer(self, x: u8) -> Self {
        MachineState { sound_timer: self.v(x), ..self }.advance()
    }

    /// FX1E: addition modulo 65536.
    pub open spec fn fx1e(self, x: u8) -> Self {
        MachineState { i: ((self.i + self.v(x)) % 0x10000) as u16, ..self }.advance()
    }

    /// FX29: the address of the glyph of the digit in VX.
    pub open spec fn fontset(self, x: u8) -> Self {
        MachineState { i: (self.v(x) * 5) as u16, ..self }.advance()
    }

    /// FX55: V0 to VX, VX included, go to memory at the index register.
    pub open spec fn reg_dump(self, x: u8) -> Self {
        MachineState {
            memory: Seq::new(
                4096,
                |a: int|
                    if self.i <= a <= self.i + x {
                        self.registers[a - self.i]
                    } else {
                        self.memory[a]
                    },
            ),
            ..self
        }.advance()
    }

    /// FX65: V0 to VX, VX included, come from memory at the index register.
    pub open spec fn reg_load(self, x: u8) -> Self {
        MachineState {
            registers: Seq::new(
                16,
                |k: int| if k <= x { self.memory[self.i + k] } else { self.registers[k] },
            ),
            ..self
        }.advance()
    }

    /// FX33: the hundreds, tens and units of VX go to memory at the index
    /// register.
    pub open spec fn bcd(self, x: u8) -> Self {
        let value = self.v(x);
        let i = self.i as int;
        MachineState {
            memory: self.memory.update(i, value / 100).update(i + 1, value / 10 % 10).update(
                i + 2,
                value % 10,
            ),
            ..self
        }.advance()
    }

    /// 8XYN: the register operation selected by the low nibble `n`; nothing
    /// happens where `n` selects none.
    pub open spec fn arithmetic(self, x: u8, y: u8, n: u8) -> Self {
        if n == 0x0 {
            self.set_reg(x, y)
        } else if n == 0x1 {
            self.bitwise_or(x, y)
        } else if n == 0x2 {
            self.bitwise_and(x, y)
        } else if n == 0x3 {
            self.bitwise_xor(x, y)
        } else if n == 0x4 {
            self.add_reg(x, y)
        } else if n == 0x5 {
            self.sub_reg(x, y)
        } else if n == 0x6 {
            self.shr(x, y)
        } else if n == 0x7 {
            self.subn(x, y)
        } else if n == 0xE {
            self.shl(x, y)
        } else {
            self
        }
    }

    /// FXNN: the operation selected by the low byte `nn`; nothing happens
    /// where `nn` selects none.
    pub open spec fn extended(self, x: u8, nn: u8) -> Self {
        if nn == 0x07 {
            self.get_delay(x)
        } else if nn == 0x0A {
            self.get_key(x)
        } else if nn == 0x15 {
            self.delay_timer(x)
        } else if nn == 0x18 {
            self.sound_timer(x)
        } else if nn == 0x1E {
            self.fx1e(x)
        } else if nn == 0x29 {
            self.fontset(x)
        } else if nn == 0x33 {
            self.bcd(x)
        } else if nn == 0x55 {
            self.reg_dump(x)
        } else if nn == 0x65 {
            self.reg_load(x)
        } else {
            self
        }
    }

    /// The state after the instruction word `raw` has been executed, with
    /// `byte` as the random byte where the instruction asks for one. A word
    /// that is no instruction changes nothing, the program counter included.
    pub open spec fn execute(self, raw: u16, byte: u8) -> Self {
        let class = raw / 0x1000;
        let x = nibble(raw, 1);
        let y = nibble(raw, 2);
        let n = nibble(raw, 3);
        let nn = (raw % 0x100) as u8;
        let nnn = (raw % 0x1000) as u16;
        if raw == 0x00E0 {
            self.clear_screen()
        } else if raw == 0x00EE {
            self.ret()
        } else if class == 0x1 {
            self.jump(nnn)
        } else if class == 0x2 {
            self.call(nnn)
        } else if class == 0x3 {
            self.cond_equals(x, nn)
        } else if class == 0x4 {
            self.cond_not_equals(x, nn)
        } else if class == 0x5 && n == 0 {
            self.cond_reg_equals(x, y)
        } else if class == 0x6 {
            self.set_register(x, nn)
        } else if class == 0x7 {
            self.add_value(x, nn)
        } else if class == 0x8 {
            self.arithmetic(x, y, n)
        } else if class == 0x9 && n == 0 {
            self.cond_reg_not_equals(x, y)
        } else if class == 0xA {
            self.set_index(nnn)
        } else if class == 0xB {
            self.jump_plus(nnn)
        } else if class == 0xC {
            self.random_with(x, nn, byte)
        } else if class == 0xD {
            self.display(x, y, n)
        } else if class == 0xE && nn == 0x9E {
            self.if_key(x)
        } else if class == 0xE && nn == 0xA1 {
            self.if_not_key(x)
        } else if class == 0xF {
            self.extended(x, nn)
        } else {
            self
        }
    }

    /// Why the instruction word `raw` cannot be executed in this state, if it
    /// cannot.
    pub open spec fn fault_of(self, raw: u16) -> Option<Fault> {
        let class = raw / 0x1000;
        let x = nibble(raw, 1);
        let n = nibble(raw, 3);
        let nn = (raw % 0x100) as u8;
        if raw == 0x00EE {
            if self.sp < 0 {
                Some(Fault::StackUnderflow)
            } else {
                None
            }
        } else if class == 0x2 {
            if self.sp >= 15 {
                Some(Fault::StackOverflow)
            } else {
                None
            }
        } else if class == 0xD {
            if self.i + n > 4096 {
                Some(Fault::AddressOutOfBounds)
            } else {
                None
            }
        } else if class == 0xE && (nn == 0x9E || nn == 0xA1) {
            if self.v(x) >= 16 {
                Some(Fault::KeyOutOfBounds)
            } else {
                None
            }
        } else if class == 0xF && nn == 0x33 {
            if self.i + 2 >= 4096 {
                Some(Fault::AddressOutOfBounds)
            } else {
                None
            }
        } else if class == 0xF && (nn == 0x55 || nn == 0x65) {
            if self.i + x >= 4096 {
                Some(Fault::AddressOutOfBounds)
            } else {
                None
            }
        } else {
            None
        }
    }

    /// The program counter addresses a whole instruction inside memory.
    pub open spec fn fetchable(self) -> bool {
        0 <= self.pc && self.pc + 1 < 4096
    }

    /// The state is well formed and the program counter addresses an
    /// instruction.
    pub open spec fn ready(self) -> bool {
        self.wf() && self.fetchable()
    }

    /// The instruction word at the program counter, high byte first.
    pub open spec fn fetch(self) -> u16 {
        word_of(self.memory[self.pc], self.memory[self.pc + 1])
    }

    /// Why the next cycle cannot run, if it cannot.
    pub open spec fn fault(self) -> Option<Fault> {
        if !self.fetchable() {
            Some(Fault::PcOutOfBounds)
        } else {
            self.fault_of(self.fetch())
        }
    }

    /// The state with `key_map` as the keys and each timer that is not zero
    /// decremented by one.
    pub open spec fn tick(self, key_map: Seq<bool>) -> Self {
        MachineState {
            key_map,
            delay_timer: if self.delay_timer > 0 {
                (self.delay_timer - 1) as u8
            } else {
                0u8
            },
            sound_timer: if self.sound_timer > 0 {
                (self.sound_timer - 1) as u8
            } else {
                0u8
            },
            ..self
        }
    }

    /// The state after one cycle: the keys are taken over, the timers tick,
    /// and the instruction at the program counter is executed.
    pub open spec fn cycle(self, key_map: Seq<bool>, byte: u8) -> Self {
        let ticked = self.tick(key_map);
        ticked.execute(ticked.fetch(), byte)
    }
}

} // verus!
