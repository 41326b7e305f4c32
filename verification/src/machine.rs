//! The machine as a mathematical value, and what each instruction does to
//! it. Every contract of the executable machine is stated over these
//! definitions.

use vstd::prelude::*;
use crate::fault::{Fault, FaultKind};
use crate::font::{font, GLYPH_SIZE};
use crate::instruction::{decode, Instruction};

verus! {

/// Bytes of addressable memory.
pub const MEMORY_SIZE: usize = 4096;

/// Address at which a program is loaded and starts.
pub const PROGRAM_START: usize = 0x200;

/// Highest address at which a whole instruction fits.
pub const LAST_INSTRUCTION: usize = 4094;

/// Longest program that fits in memory.
pub const ROM_CAPACITY: usize = 3584;

/// Return addresses the call stack holds.
pub const STACK_LEVELS: usize = 16;

/// General registers V0 to VF.
pub const NUM_REGISTERS: usize = 16;

/// Keys on the keypad.
pub const NUM_KEYS: usize = 16;

/// Pixels in one row of the screen.
pub const SCREEN_WIDTH: usize = 64;

/// Pixels in one column of the screen.
pub const SCREEN_HEIGHT: usize = 32;

/// The register that carry, borrow, shifted-out bit and collision are
/// reported in.
pub const FLAG: usize = 0xF;

/// The whole state of a machine between two steps.
#[verifier::ext_equal]
pub struct Machine {
    /// The 4096 bytes of memory.
    pub memory: Seq<u8>,
    /// The registers V0 to VF.
    pub registers: Seq<u8>,
    /// The index register I.
    pub index: u16,
    /// The program counter.
    pub pc: nat,
    /// The return addresses of the calls that have not returned, oldest
    /// first.
    pub stack: Seq<nat>,
    /// The delay timer.
    pub delay_timer: u8,
    /// The sound timer.
    pub sound_timer: u8,
    /// For each key, whether it is down.
    pub keys: Seq<bool>,
    /// For each column `x` and row `y`, whether the pixel `screen[x][y]` is
    /// lit.
    pub screen: Seq<Seq<bool>>,
}

/// A screen with no pixel lit.
pub open spec fn blank_screen() -> Seq<Seq<bool>> {
    Seq::new(SCREEN_WIDTH as nat, |x: int| Seq::new(SCREEN_HEIGHT as nat, |y: int| false))
}

/// Memory right after loading `rom`: the font at address 0, the program at
/// the program start, zero everywhere else.
pub open spec fn initial_memory(rom: Seq<u8>) -> Seq<u8> {
    Seq::new(
        MEMORY_SIZE as nat,
        |a: int|
            if a < font().len() {
                font()[a]
            } else if PROGRAM_START <= a < PROGRAM_START + rom.len() {
                rom[a - PROGRAM_START]
            } else {
                0u8
            },
    )
}

/// The lowest key at or above `from` that is down, if any.
pub open spec fn first_key_down(keys: Seq<bool>, from: int) -> Option<u8>
    decreases keys.len() - from,
{
    if from < 0 || from >= keys.len() {
        None
    } else if keys[from] {
        Some(from as u8)
    } else {
        first_key_down(keys, from + 1)
    }
}

/// Whether the pixel in `column` (0 is the leftmost) of the sprite row
/// `row` is set.
pub open spec fn sprite_bit(row: u8, column: u8) -> bool {
    (row >> (7 - column) as u8) & 1 == 1
}

/// A timer after one tick.
pub open spec fn tick(timer: u8) -> u8 {
    if timer > 0 {
        (timer - 1) as u8
    } else {
        0
    }
}

/// Whether a step that was to give `expected` did so: on success the
/// machine is the expected one, on a fault the fault is the expected one and
/// the machine is as it was.
pub open spec fn lands<E>(
    outcome: Result<(), E>,
    after: Machine,
    expected: Result<Machine, E>,
    before: Machine,
) -> bool {
    match expected {
        Ok(next) => outcome is Ok && after == next,
        Err(error) => outcome == Err::<(), E>(error) && after == before,
    }
}

impl Machine {
    /// The sizes are as the machine has them, and the stack is within its
    /// capacity.
    pub open spec fn well_formed(self) -> bool {
        &&& self.memory.len() == MEMORY_SIZE
        &&& self.registers.len() == NUM_REGISTERS
        &&& self.stack.len() <= STACK_LEVELS
        &&& self.keys.len() == NUM_KEYS
        &&& self.screen.len() == SCREEN_WIDTH
        &&& forall|x: int|
            0 <= x < SCREEN_WIDTH ==> (#[trigger] self.screen[x]).len() == SCREEN_HEIGHT
    }

    /// The machine right after loading `rom`.
    pub open spec fn boot(rom: Seq<u8>) -> Machine {
        Machine {
            memory: initial_memory(rom),
            registers: Seq::new(NUM_REGISTERS as nat, |x: int| 0u8),
            index: 0,
            pc: PROGRAM_START as nat,
            stack: Seq::empty(),
            delay_timer: 0,
            sound_timer: 0,
            keys: Seq::new(NUM_KEYS as nat, |k: int| false),
            screen: blank_screen(),
        }
    }

    /// The same machine with the program counter moved forward.
    pub open spec fn advance(self, by: nat) -> Machine {
        Machine { pc: self.pc + by, ..self }
    }

    /// Past the next instruction if `condition` holds, else on to it.
    pub open spec fn skip_if(self, condition: bool) -> Machine {
        self.advance(
            if condition {
                4
            } else {
                2
            },
        )
    }

    /// The same machine with `value` in the register `x`.
    pub open spec fn with_register(self, x: int, value: u8) -> Machine {
        Machine { registers: self.registers.update(x, value), ..self }
    }

    /// `00E0`.
    pub open spec fn clear_screen(self) -> Machine {
        Machine { screen: blank_screen(), ..self }.advance(2)
    }

    /// `00EE`: the newest return address leaves the stack and becomes the
    /// program counter.
    pub open spec fn return_from_subroutine(self) -> Result<Machine, FaultKind> {
        if self.stack.len() == 0 {
            Err(FaultKind::StackUnderflow)
        } else {
            Ok(Machine { pc: self.stack.last(), stack: self.stack.drop_last(), ..self })
        }
    }

    /// `1nnn`.
    pub open spec fn jump(self, address: u16) -> Machine {
        Machine { pc: address as nat, ..self }
    }

    /// `2nnn`: the address of the next instruction goes onto the stack.
    pub open spec fn call(self, address: u16) -> Result<Machine, FaultKind> {
        if self.stack.len() >= STACK_LEVELS {
            Err(FaultKind::StackOverflow)
        } else {
            Ok(Machine { pc: address as nat, stack: self.stack.push(self.pc + 2), ..self })
        }
    }

    /// `6xnn`.
    pub open spec fn load_immediate(self, x: int, value: u8) -> Machine {
        self.with_register(x, value).advance(2)
    }

    /// `7xnn`: the sum modulo 256; the flag keeps its value.
    pub open spec fn add_immediate(self, x: int, value: u8) -> Machine {
        self.with_register(x, ((self.registers[x] + value) % 256) as u8).advance(2)
    }

    /// `8xy0`.
    pub open spec fn load_register(self, x: int, y: int) -> Machine {
        self.with_register(x, self.registers[y]).advance(2)
    }

    /// `8xy1`.
    pub open spec fn or_registers(self, x: int, y: int) -> Machine {
        self.with_register(x, self.registers[x] | self.registers[y]).advance(2)
    }

    /// `8xy2`.
    pub open spec fn and_registers(self, x: int, y: int) -> Machine {
        self.with_register(x, self.registers[x] & self.registers[y]).advance(2)
    }

    /// `8xy3`.
    pub open spec fn xor_registers(self, x: int, y: int) -> Machine {
        self.with_register(x, self.registers[x] ^ self.registers[y]).advance(2)
    }

    /// `8xy4`: the flag is written first, then the sum modulo 256 into Vx,
    /// so with `x` the flag register itself the sum is what stays.
    pub open spec fn add_register(self, x: int, y: int) -> Machine {
        let sum = self.registers[x] + self.registers[y];
        let carry = if sum > 255 {
            1u8
        } else {
            0u8
        };
        self.with_register(FLAG as int, carry).with_register(x, (sum % 256) as u8).advance(2)
    }

    /// `8xy5`: the flag is 1 where nothing was borrowed; it is written
    /// first, then the difference modulo 256 into Vx.
    pub open spec fn subtract_register(self, x: int, y: int) -> Machine {
        let difference = self.registers[x] - self.registers[y];
        let no_borrow = if difference >= 0 {
            1u8
        } else {
            0u8
        };
        self.with_register(FLAG as int, no_borrow).with_register(
            x,
            (difference % 256) as u8,
        ).advance(2)
    }

    /// `8xy6`: the flag takes the lowest bit of Vx, then Vx is halved.
    pub open spec fn shift_right(self, x: int) -> Machine {
        let flagged = self.with_register(FLAG as int, self.registers[x] % 2);
        flagged.with_register(x, flagged.registers[x] / 2).advance(2)
    }

    /// `8xy7`: as `8xy5` with the operands exchanged.
    pub open spec fn subtract_from_register(self, x: int, y: int) -> Machine {
        let difference = self.registers[y] - self.registers[x];
        let no_borrow = if difference >= 0 {
            1u8
        } else {
            0u8
        };
        self.with_register(FLAG as int, no_borrow).with_register(
            x,
            (difference % 256) as u8,
        ).advance(2)
    }

    /// `8xyE`: the flag takes the highest bit of Vx, then Vx is doubled
    /// modulo 256.
    pub open spec fn shift_left(self, x: int) -> Machine {
        let flagged = self.with_register(FLAG as int, self.registers[x] / 128);
        flagged.with_register(x, ((flagged.registers[x] * 2) % 256) as u8).advance(2)
    }

    /// `Annn`.
    pub open spec fn load_index(self, address: u16) -> Machine {
        Machine { index: address, ..self }.advance(2)
    }

    /// `Bnnn`: V0 is added into the low byte of the address modulo 256; the
    /// bits above the low byte stay as they are.
    pub open spec fn jump_offset(self, address: u16) -> Machine {
        let low = (address % 256 + self.registers[0]) % 256;
        Machine { pc: (address - address % 256 + low) as nat, ..self }
    }

    /// `Cxnn`, with `random` the byte that the random source gave.
    pub open spec fn random(self, x: int, mask: u8, random: u8) -> Machine {
        self.with_register(x, random & mask).advance(2)
    }

    /// Whether the sprite of `rows` rows at the index register, drawn with
    /// its top left corner at the column `left` and the row `top`, has a set
    /// bit on the pixel (`x`, `y`).
    pub open spec fn sprite_covers(self, left: int, top: int, rows: int, x: int, y: int) -> bool {
        &&& left <= x < left + 8
        &&& top <= y < top + rows
        &&& sprite_bit(self.memory[self.index + (y - top)], (x - left) as u8)
    }

    /// Whether drawing that sprite flips a pixel that is lit.
    pub open spec fn sprite_collides(self, left: int, top: int, rows: int) -> bool {
        exists|x: int, y: int|
            0 <= x < SCREEN_WIDTH && 0 <= y < SCREEN_HEIGHT && #[trigger] self.screen[x][y]
                && self.sprite_covers(left, top, rows, x, y)
    }

    /// `Dxyn`: the sprite is drawn by exclusive or at (Vx mod 64, Vy mod
    /// 32); what would fall off the right or bottom edge is left out; the
    /// flag says whether a lit pixel was put out.
    pub open spec fn draw(self, x: int, y: int, rows: u8) -> Result<Machine, FaultKind> {
        let left = self.registers[x] % 64;
        let top = self.registers[y] % 32;
        if rows > 0 && self.index + rows > MEMORY_SIZE {
            Err(FaultKind::IndexOutOfBounds)
        } else {
            let collision = if self.sprite_collides(left as int, top as int, rows as int) {
                1u8
            } else {
                0u8
            };
            Ok(
                Machine {
                    screen: Seq::new(
                        SCREEN_WIDTH as nat,
                        |px: int|
                            Seq::new(
                                SCREEN_HEIGHT as nat,
                                |py: int|
                                    self.screen[px][py] != self.sprite_covers(
                                        left as int,
                                        top as int,
                                        rows as int,
                                        px,
                                        py,
                                    ),
                            ),
                    ),
                    ..self
                }.with_register(FLAG as int, collision).advance(2),
            )
        }
    }

    /// `Ex9E` where `down_skips`, `ExA1` where not: a skip depending on
    /// whether the key Vx is down.
    pub open spec fn skip_on_key(self, x: int, down_skips: bool) -> Result<Machine, FaultKind> {
        let key = self.registers[x];
        if key >= NUM_KEYS {
            Err(FaultKind::KeyOutOfRange)
        } else {
            Ok(self.skip_if(self.keys[key as int] == down_skips))
        }
    }

    /// `Fx07`.
    pub open spec fn load_delay_timer(self, x: int) -> Machine {
        self.with_register(x, self.delay_timer).advance(2)
    }

    /// `Fx0A`: with no key down nothing changes, so that the instruction
    /// comes up again at the next step; else Vx takes the lowest key that
    /// is down.
    pub open spec fn wait_for_key(self, x: int) -> Machine {
        match first_key_down(self.keys, 0) {
            Some(key) => self.with_register(x, key).advance(2),
            None => self,
        }
    }

    /// `Fx15`.
    pub open spec fn store_delay_timer(self, x: int) -> Machine {
        Machine { delay_timer: self.registers[x], ..self }.advance(2)
    }

    /// `Fx18`.
    pub open spec fn store_sound_timer(self, x: int) -> Machine {
        Machine { sound_timer: self.registers[x], ..self }.advance(2)
    }

    /// `Fx1E`: the sum modulo 65536.
    pub open spec fn add_to_index(self, x: int) -> Machine {
        Machine { index: ((self.index + self.registers[x]) % 0x10000) as u16, ..self }.advance(2)
    }

    /// `Fx29`: the glyphs lie one behind the other from address 0.
    pub open spec fn load_glyph(self, x: int) -> Machine {
        Machine { index: (GLYPH_SIZE * self.registers[x]) as u16, ..self }.advance(2)
    }

    /// `Fx33`: hundreds, tens and ones of Vx at I, I+1 and I+2.
    pub open spec fn store_decimal(self, x: int) -> Result<Machine, FaultKind> {
        let value = self.registers[x];
        let at = self.index as int;
        if at + 2 >= MEMORY_SIZE {
            Err(FaultKind::IndexOutOfBounds)
        } else {
            Ok(
                Machine {
                    memory: self.memory.update(at, value / 100).update(
                        at + 1,
                        (value / 10) % 10,
                    ).update(at + 2, value % 10),
                    ..self
                }.advance(2),
            )
        }
    }

    /// `Fx55`: V0..=Vx to I..=I+x; the index register stays.
    pub open spec fn store_registers(self, x: int) -> Result<Machine, FaultKind> {
        let at = self.index as int;
        if at + x >= MEMORY_SIZE {
            Err(FaultKind::IndexOutOfBounds)
        } else {
            Ok(
                Machine {
                    memory: Seq::new(
                        MEMORY_SIZE as nat,
                        |a: int|
                            if at <= a <= at + x {
                                self.registers[a - at]
                            } else {
                                self.memory[a]
                            },
                    ),
                    ..self
                }.advance(2),
            )
        }
    }

    /// `Fx65`: I..=I+x to V0..=Vx; the index register stays.
    pub open spec fn load_registers(self, x: int) -> Result<Machine, FaultKind> {
        let at = self.index as int;
        if at + x >= MEMORY_SIZE {
            Err(FaultKind::IndexOutOfBounds)
        } else {
            Ok(
                Machine {
                    registers: Seq::new(
                        NUM_REGISTERS as nat,
                        |r: int|
                            if r <= x {
                                self.memory[at + r]
                            } else {
                                self.registers[r]
                            },
                    ),
                    ..self
                }.advance(2),
            )
        }
    }

    /// What `instruction` makes of this machine, or why it cannot run;
    /// `random` is the byte that the random source gives, which only
    /// `Cxnn` looks at.
    pub open spec fn execute(self, instruction: Instruction, random: u8) -> Result<
        Machine,
        FaultKind,
    > {
        match instruction {
            Instruction::ClearScreen => Ok(self.clear_screen()),
            Instruction::Return => self.return_from_subroutine(),
            Instruction::Jump { address } => Ok(self.jump(address)),
            Instruction::Call { address } => self.call(address),
            Instruction::SkipIfEqual { x, value } => Ok(
                self.skip_if(self.registers[x as int] == value),
            ),
            Instruction::SkipIfNotEqual { x, value } => Ok(
                self.skip_if(self.registers[x as int] != value),
            ),
            Instruction::SkipIfRegistersEqual { x, y } => Ok(
                self.skip_if(self.registers[x as int] == self.registers[y as int]),
            ),
            Instruction::LoadImmediate { x, value } => Ok(self.load_immediate(x as int, value)),
            Instruction::AddImmediate { x, value } => Ok(self.add_immediate(x as int, value)),
            Instruction::LoadRegister { x, y } => Ok(self.load_register(x as int, y as int)),
            Instruction::Or { x, y } => Ok(self.or_registers(x as int, y as int)),
            Instruction::And { x, y } => Ok(self.and_registers(x as int, y as int)),
            Instruction::Xor { x, y } => Ok(self.xor_registers(x as int, y as int)),
            Instruction::AddRegister { x, y } => Ok(self.add_register(x as int, y as int)),
            Instruction::SubtractRegister { x, y } => Ok(
                self.subtract_register(x as int, y as int),
            ),
            Instruction::ShiftRight { x } => Ok(self.shift_right(x as int)),
            Instruction::SubtractFromRegister { x, y } => Ok(
                self.subtract_from_register(x as int, y as int),
            ),
            Instruction::ShiftLeft { x } => Ok(self.shift_left(x as int)),
            Instruction::SkipIfRegistersNotEqual { x, y } => Ok(
                self.skip_if(self.registers[x as int] != self.registers[y as int]),
            ),
            Instruction::LoadIndex { address } => Ok(self.load_index(address)),
            Instruction::JumpOffset { address } => Ok(self.jump_offset(address)),
            Instruction::Random { x, mask } => Ok(self.random(x as int, mask, random)),
            Instruction::Draw { x, y, rows } => self.draw(x as int, y as int, rows),
            Instruction::SkipIfKeyDown { x } => self.skip_on_key(x as int, true),
            Instruction::SkipIfKeyUp { x } => self.skip_on_key(x as int, false),
            Instruction::LoadDelayTimer { x } => Ok(self.load_delay_timer(x as int)),
            Instruction::WaitForKey { x } => Ok(self.wait_for_key(x as int)),
            Instruction::StoreDelayTimer { x } => Ok(self.store_delay_timer(x as int)),
            Instruction::StoreSoundTimer { x } => Ok(self.store_sound_timer(x as int)),
            Instruction::AddToIndex { x } => Ok(self.add_to_index(x as int)),
            Instruction::LoadGlyph { x } => Ok(self.load_glyph(x as int)),
            Instruction::StoreDecimal { x } => self.store_decimal(x as int),
            Instruction::StoreRegisters { x } => self.store_registers(x as int),
            Instruction::LoadRegisters { x } => self.load_registers(x as int),
        }
    }

    /// Whether the program counter addresses a whole instruction inside
    /// program memory. Odd addresses do: nothing asks instructions to be
    /// aligned.
    pub open spec fn at_instruction(self) -> bool {
        PROGRAM_START <= self.pc <= LAST_INSTRUCTION
    }

    /// A halt of this machine for the reason `kind`.
    pub open spec fn fault(self, kind: FaultKind, opcode: Option<u16>) -> Fault {
        Fault { kind, pc: self.pc as usize, opcode }
    }

    /// The big-endian word at the program counter.
    pub open spec fn fetch(self) -> Result<u16, Fault> {
        if self.at_instruction() {
            Ok((self.memory[self.pc as int] * 256 + self.memory[self.pc as int + 1]) as u16)
        } else {
            Err(self.fault(FaultKind::ProgramCounterOutOfBounds, None))
        }
    }

    /// What running the instruction word `opcode` at the program counter
    /// makes of this machine.
    pub open spec fn step(self, opcode: u16, random: u8) -> Result<Machine, Fault> {
        if !self.at_instruction() {
            Err(self.fault(FaultKind::ProgramCounterOutOfBounds, Some(opcode)))
        } else {
            match decode(opcode) {
                None => Err(self.fault(FaultKind::UndefinedInstruction, Some(opcode))),
                Some(instruction) => match self.execute(instruction, random) {
                    Ok(next) => Ok(next),
                    Err(kind) => Err(self.fault(kind, Some(opcode))),
                },
            }
        }
    }

    /// Whether the next cycle asks the random source for a byte.
    pub open spec fn next_is_random(self) -> bool {
        self.fetch() matches Ok(opcode) && decode(opcode) matches Some(Instruction::Random { .. })
    }

    /// Whether the machine is suspended on a wait for a key: the
    /// instruction at the program counter is `Fx0A` and no key is down.
    pub open spec fn awaiting_key(self) -> bool {
        &&& self.fetch() matches Ok(opcode)
        &&& decode(opcode) matches Some(Instruction::WaitForKey { .. })
        &&& first_key_down(self.keys, 0) is None
    }

    /// Both timers one tick on.
    pub open spec fn tick_timers(self) -> Machine {
        Machine {
            delay_timer: tick(self.delay_timer),
            sound_timer: tick(self.sound_timer),
            ..self
        }
    }

    /// One whole cycle: fetch, run the word, tick the timers.
    pub open spec fn cycle(self, random: u8) -> Result<Machine, Fault> {
        match self.fetch() {
            Err(fault) => Err(fault),
            Ok(opcode) => match self.step(opcode, random) {
                Err(fault) => Err(fault),
                Ok(next) => Ok(next.tick_timers()),
            },
        }
    }
}

} // verus!
