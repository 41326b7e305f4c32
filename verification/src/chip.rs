//! The executable machine.

use vstd::prelude::*;
use crate::fault::{Fault, FaultKind, RomTooLarge};
use crate::font::{FONT_SET, FONT_SIZE, GLYPH_SIZE};
use crate::instruction::{decode, Instruction};
use crate::machine::{
    blank_screen, first_key_down, initial_memory, lands, sprite_bit, Machine, FLAG,
    LAST_INSTRUCTION, MEMORY_SIZE, NUM_KEYS, NUM_REGISTERS, PROGRAM_START, ROM_CAPACITY,
    SCREEN_HEIGHT, SCREEN_WIDTH, STACK_LEVELS,
};
use crate::opcode::Opcode;

verus! {

/// A CHIP-8 machine. Its state is the `Machine` that `@` gives.
#[derive(Debug)]
pub struct Chip8 {
    memory_buffer: [u8; MEMORY_SIZE],
    stack: [u16; STACK_LEVELS],
    pc: usize,
    sp: usize,
    i: u16,
    v: [u8; NUM_REGISTERS],
    keys: [bool; NUM_KEYS],
    delay_timer: u8,
    sound_timer: u8,
    graphics: [[bool; SCREEN_HEIGHT]; SCREEN_WIDTH],
}

impl View for Chip8 {
    type V = Machine;

    closed spec fn view(&self) -> Machine {
        Machine {
            memory: self.memory_buffer@,
            registers: self.v@,
            index: self.i,
            pc: self.pc as nat,
            stack: Seq::new(self.sp as nat, |level: int| self.stack@[level] as nat),
            delay_timer: self.delay_timer,
            sound_timer: self.sound_timer,
            keys: self.keys@,
            screen: Seq::new(SCREEN_WIDTH as nat, |x: int| self.graphics@[x]@),
        }
    }
}

/// Whether the sprite row `bits`, drawn from the column `left` on, has a
/// set bit on the column `x` within its first `columns` columns.
spec fn row_covers(bits: u8, left: int, columns: int, x: int) -> bool {
    left <= x < left + columns && sprite_bit(bits, (x - left) as u8)
}

/// Whether drawing the first `columns` columns of that sprite row into the
/// screen row `y` flips a pixel that is lit.
spec fn row_collides(screen: Seq<Seq<bool>>, bits: u8, left: int, columns: int, y: int) -> bool {
    exists|x: int|
        0 <= x < SCREEN_WIDTH && #[trigger] screen[x][y] && row_covers(bits, left, columns, x)
}

/// A byte from `rand::random`, which draws from the thread-local generator
/// of the `rand` crate and gives its low eight bits. Nothing is claimed of
/// the byte: any of the 256 values may come back, and two calls need not
/// agree. `rand` seeds the generator from the operating system at the first
/// call in a thread, and panics there if the system cannot seed it.
#[verifier::external_body]
fn random_byte() -> (byte: u8) {
    rand::random::<u8>()
}

impl Chip8 {
    #[verifier::type_invariant]
    spec fn stack_within_capacity(&self) -> bool {
        self.sp <= STACK_LEVELS
    }

    /// The memory of a machine that starts with `rom` loaded.
    fn load_into_memory(rom: &[u8]) -> (memory_buffer: [u8; MEMORY_SIZE])
        requires
            rom@.len() <= ROM_CAPACITY,
        ensures
            memory_buffer@ == initial_memory(rom@),
    {
        let mut memory_buffer: [u8; MEMORY_SIZE] = [0; MEMORY_SIZE];
        for idx in 0..rom.len()
            invariant
                rom@.len() <= ROM_CAPACITY,
                forall|a: int|
                    0 <= a < MEMORY_SIZE ==> #[trigger] memory_buffer[a] == (if PROGRAM_START <= a
                        < PROGRAM_START + idx {
                        rom[a - PROGRAM_START]
                    } else {
                        0u8
                    }),
        {
            memory_buffer[idx + PROGRAM_START] = rom[idx];
        }
        for idx in 0..FONT_SIZE
            invariant
                rom@.len() <= ROM_CAPACITY,
                forall|a: int|
                    0 <= a < MEMORY_SIZE ==> #[trigger] memory_buffer[a] == (if a < idx {
                        FONT_SET[a]
                    } else if PROGRAM_START <= a < PROGRAM_START + rom@.len() {
                        rom[a - PROGRAM_START]
                    } else {
                        0u8
                    }),
        {
            memory_buffer[idx] = FONT_SET[idx];
        }
        assert(memory_buffer@ =~= initial_memory(rom@));
        memory_buffer
    }

    /// A machine with `rom` loaded at the program start, about to run its
    /// first instruction; an image that does not fit is refused.
    pub fn new(rom: &[u8]) -> (loaded: Result<Chip8, RomTooLarge>)
        ensures
            rom@.len() <= ROM_CAPACITY ==> (loaded matches Ok(chip) && chip@ == Machine::boot(
                rom@,
            )),
            rom@.len() > ROM_CAPACITY ==> loaded == Err::<Chip8, RomTooLarge>(
                RomTooLarge { len: rom@.len() as usize },
            ),
            loaded matches Ok(chip) ==> chip@.well_formed(),
    {
        if rom.len() > ROM_CAPACITY {
            return Err(RomTooLarge { len: rom.len() });
        }
        let memory_buffer = Chip8::load_into_memory(rom);
        let chip = Chip8 {
            memory_buffer,
            stack: [0; STACK_LEVELS],
            keys: [false; NUM_KEYS],
            v: [0; NUM_REGISTERS],
            graphics: [[false; SCREEN_HEIGHT]; SCREEN_WIDTH],
            pc: PROGRAM_START,
            sp: 0,
            i: 0,
            delay_timer: 0,
            sound_timer: 0,
        };
        assert(chip@.registers =~= Machine::boot(rom@).registers);
        assert(chip@.stack =~= Machine::boot(rom@).stack);
        assert(chip@.keys =~= Machine::boot(rom@).keys);
        assert(chip@.screen =~~= Machine::boot(rom@).screen);
        Ok(chip)
    }

    /// The program counter.
    pub fn pc(&self) -> (pc: usize)
        ensures
            pc == self@.pc,
    {
        self.pc
    }

    /// The stack pointer: how many calls have not returned.
    pub fn sp(&self) -> (sp: usize)
        ensures
            sp == self@.stack.len(),
            sp <= STACK_LEVELS,
    {
        proof { use_type_invariant(self); }
        self.sp
    }

    /// The stack levels; those below the stack pointer hold the return
    /// addresses, oldest first.
    pub fn stack(&self) -> (stack: &[u16; STACK_LEVELS])
        ensures
            forall|level: int|
                0 <= level < self@.stack.len() ==> #[trigger] stack@[level] == self@.stack[level],
    {
        &self.stack
    }

    /// The index register.
    pub fn index(&self) -> (index: u16)
        ensures
            index == self@.index,
    {
        self.i
    }

    /// The registers V0 to VF.
    pub fn registers(&self) -> (registers: &[u8; NUM_REGISTERS])
        ensures
            registers@ == self@.registers,
    {
        &self.v
    }

    /// The whole memory.
    pub fn memory(&self) -> (memory: &[u8; MEMORY_SIZE])
        ensures
            memory@ == self@.memory,
    {
        &self.memory_buffer
    }

    /// The delay timer.
    pub fn delay_timer(&self) -> (timer: u8)
        ensures
            timer == self@.delay_timer,
    {
        self.delay_timer
    }

    /// The sound timer.
    pub fn sound_timer(&self) -> (timer: u8)
        ensures
            timer == self@.sound_timer,
    {
        self.sound_timer
    }

    /// The keys as the machine last saw them.
    pub fn keys(&self) -> (keys: &[bool; NUM_KEYS])
        ensures
            keys@ == self@.keys,
    {
        &self.keys
    }

    /// The screen: `graphics[x][y]` is the pixel in column `x` and row `y`.
    pub fn graphics(&self) -> (graphics: &[[bool; SCREEN_HEIGHT]; SCREEN_WIDTH])
        ensures
            forall|x: int, y: int|
                0 <= x < SCREEN_WIDTH && 0 <= y < SCREEN_HEIGHT ==> #[trigger] graphics@[x]@[y]
                    == self@.screen[x][y],
    {
        &self.graphics
    }

    /// Replaces the state of all keys, as the host does before each cycle.
    pub fn set_keys(&mut self, keys: [bool; NUM_KEYS])
        ensures
            final(self)@ == (Machine { keys: keys@, ..old(self)@ }),
            final(self)@.well_formed(),
    {
        proof { use_type_invariant(&*self); }
        self.keys = keys;
    }

    /// Presses or releases one key.
    pub fn set_key(&mut self, key: usize, down: bool)
        requires
            key < NUM_KEYS,
        ensures
            final(self)@ == (Machine {
                keys: old(self)@.keys.update(key as int, down),
                ..old(self)@
            }),
            final(self)@.well_formed(),
    {
        proof { use_type_invariant(&*self); }
        self.keys[key] = down;
    }

    /// Writes the register `x`.
    pub fn set_register(&mut self, x: usize, value: u8)
        requires
            x < NUM_REGISTERS,
        ensures
            final(self)@ == old(self)@.with_register(x as int, value),
            final(self)@.well_formed(),
    {
        proof { use_type_invariant(&*self); }
        self.v[x] = value;
    }

    /// Writes the index register.
    pub fn set_index(&mut self, index: u16)
        ensures
            final(self)@ == (Machine { index, ..old(self)@ }),
            final(self)@.well_formed(),
    {
        proof { use_type_invariant(&*self); }
        self.i = index;
    }

    /// Writes one byte of memory.
    pub fn write_memory(&mut self, address: usize, value: u8)
        requires
            address < MEMORY_SIZE,
        ensures
            final(self)@ == (Machine {
                memory: old(self)@.memory.update(address as int, value),
                ..old(self)@
            }),
            final(self)@.well_formed(),
    {
        proof { use_type_invariant(&*self); }
        self.memory_buffer[address] = value;
    }

    /// Writes the delay timer.
    pub fn set_delay_timer(&mut self, value: u8)
        ensures
            final(self)@ == (Machine { delay_timer: value, ..old(self)@ }),
            final(self)@.well_formed(),
    {
        proof { use_type_invariant(&*self); }
        self.delay_timer = value;
    }

    /// Writes the sound timer.
    pub fn set_sound_timer(&mut self, value: u8)
        ensures
            final(self)@ == (Machine { sound_timer: value, ..old(self)@ }),
            final(self)@.well_formed(),
    {
        proof { use_type_invariant(&*self); }
        self.sound_timer = value;
    }

    /// The instruction word at the program counter, high byte first.
    pub fn fetch_opcode(&self) -> (fetched: Result<u16, Fault>)
        ensures
            fetched == self@.fetch(),
    {
        if self.pc < PROGRAM_START || self.pc > LAST_INSTRUCTION {
            return Err(
                Fault { kind: FaultKind::ProgramCounterOutOfBounds, pc: self.pc, opcode: None },
            );
        }
        let high = self.memory_buffer[self.pc] as u16;
        let low = self.memory_buffer[self.pc + 1] as u16;
        assert(high << 8 | low == high * 256 + low) by (bit_vector)
            requires
                high < 256,
                low < 256,
        ;
        Ok(high << 8 | low)
    }

    /// `00E0`: puts every pixel out.
    fn clear_screen(&mut self)
        requires
            old(self)@.pc <= LAST_INSTRUCTION,
        ensures
            final(self)@ == old(self)@.clear_screen(),
    {
        proof { use_type_invariant(&*self); }
        self.graphics = [[false; SCREEN_HEIGHT]; SCREEN_WIDTH];
        self.pc += 2;
        assert(self@.screen =~~= blank_screen());
    }

    /// `00EE`: goes back to where the newest call came from.
    fn return_from_subroutine(&mut self) -> (outcome: Result<(), FaultKind>)
        ensures
            lands(outcome, final(self)@, old(self)@.return_from_subroutine(), old(self)@),
    {
        proof { use_type_invariant(&*self); }
        if self.sp == 0 {
            return Err(FaultKind::StackUnderflow);
        }
        self.pc = self.stack[self.sp - 1] as usize;
        self.sp -= 1;
        assert(self@.stack =~= old(self)@.stack.drop_last());
        Ok(())
    }

    /// `1nnn`: goes on at `address`.
    fn jump_to_nnn(&mut self, address: u16)
        ensures
            final(self)@ == old(self)@.jump(address),
    {
        proof { use_type_invariant(&*self); }
        self.pc = address as usize;
    }

    /// `2nnn`: goes on at `address`, to come back behind this instruction.
    fn call_subroutine_at_nnn(&mut self, address: u16) -> (outcome: Result<(), FaultKind>)
        requires
            old(self)@.pc <= LAST_INSTRUCTION,
        ensures
            lands(outcome, final(self)@, old(self)@.call(address), old(self)@),
    {
        proof { use_type_invariant(&*self); }
        if self.sp >= STACK_LEVELS {
            return Err(FaultKind::StackOverflow);
        }
        self.pc += 2;
        self.stack[self.sp] = self.pc as u16;
        self.sp += 1;
        self.pc = address as usize;
        assert(self@.stack =~= old(self)@.stack.push(old(self)@.pc + 2));
        Ok(())
    }

    /// `3xnn`: skips the next instruction if Vx equals `value`.
    fn skip_next_instruction_if_vx_equals_nn(&mut self, x: usize, value: u8)
        requires
            x < NUM_REGISTERS,
            old(self)@.pc <= LAST_INSTRUCTION,
        ensures
            final(self)@ == old(self)@.skip_if(old(self)@.registers[x as int] == value),
    {
        proof { use_type_invariant(&*self); }
        if self.v[x] == value {
            self.pc += 2;
        }
        self.pc += 2;
    }

    /// `4xnn`: skips the next instruction if Vx differs from `value`.
    fn skip_next_instruction_if_vx_not_equals_nn(&mut self, x: usize, value: u8)
        requires
            x < NUM_REGISTERS,
            old(self)@.pc <= LAST_INSTRUCTION,
        ensures
            final(self)@ == old(self)@.skip_if(old(self)@.registers[x as int] != value),
    {
        proof { use_type_invariant(&*self); }
        if self.v[x] != value {
            self.pc += 2;
        }
        self.pc += 2;
    }

    /// `5xy_`: skips the next instruction if Vx equals Vy.
    fn skip_next_instruction_if_vx_equals_vy(&mut self, x: usize, y: usize)
        requires
            x < NUM_REGISTERS,
            y < NUM_REGISTERS,
            old(self)@.pc <= LAST_INSTRUCTION,
        ensures
            final(self)@ == old(self)@.skip_if(
                old(self)@.registers[x as int] == old(self)@.registers[y as int],
            ),
    {
        proof { use_type_invariant(&*self); }
        if self.v[x] == self.v[y] {
            self.pc += 2;
        }
        self.pc += 2;
    }

    /// `6xnn`: Vx = `value`.
    fn set_vx_to_nn(&mut self, x: usize, value: u8)
        requires
            x < NUM_REGISTERS,
            old(self)@.pc <= LAST_INSTRUCTION,
        ensures
            final(self)@ == old(self)@.load_immediate(x as int, value),
    {
        proof { use_type_invariant(&*self); }
        self.v[x] = value;
        self.pc += 2;
    }

    /// `7xnn`: Vx += `value` modulo 256; the flag stays.
    fn add_nn_to_vx(&mut self, x: usize, value: u8)
        requires
            x < NUM_REGISTERS,
            old(self)@.pc <= LAST_INSTRUCTION,
        ensures
            final(self)@ == old(self)@.add_immediate(x as int, value),
    {
        proof { use_type_invariant(&*self); }
        self.v[x] = self.v[x].wrapping_add(value);
        self.pc += 2;
    }

    /// `8xy0`: Vx = Vy.
    fn set_vx_to_vy(&mut self, x: usize, y: usize)
        requires
            x < NUM_REGISTERS,
            y < NUM_REGISTERS,
            old(self)@.pc <= LAST_INSTRUCTION,
        ensures
            final(self)@ == old(self)@.load_register(x as int, y as int),
    {
        proof { use_type_invariant(&*self); }
        self.v[x] = self.v[y];
        self.pc += 2;
    }

    /// `8xy1`: Vx |= Vy.
    fn set_vx_to_vx_or_vy(&mut self, x: usize, y: usize)
        requires
            x < NUM_REGISTERS,
            y < NUM_REGISTERS,
            old(self)@.pc <= LAST_INSTRUCTION,
        ensures
            final(self)@ == old(self)@.or_registers(x as int, y as int),
    {
        proof { use_type_invariant(&*self); }
        self.v[x] = self.v[x] | self.v[y];
        self.pc += 2;
    }

    /// `8xy2`: Vx &= Vy.
    fn set_vx_to_vx_and_vy(&mut self, x: usize, y: usize)
        requires
            x < NUM_REGISTERS,
            y < NUM_REGISTERS,
            old(self)@.pc <= LAST_INSTRUCTION,
        ensures
            final(self)@ == old(self)@.and_registers(x as int, y as int),
    {
        proof { use_type_invariant(&*self); }
        self.v[x] = self.v[x] & self.v[y];
        self.pc += 2;
    }

    /// `8xy3`: Vx ^= Vy.
    fn set_vx_to_vx_xor_vy(&mut self, x: usize, y: usize)
        requires
            x < NUM_REGISTERS,
            y < NUM_REGISTERS,
            old(self)@.pc <= LAST_INSTRUCTION,
        ensures
            final(self)@ == old(self)@.xor_registers(x as int, y as int),
    {
        proof { use_type_invariant(&*self); }
        self.v[x] = self.v[x] ^ self.v[y];
        self.pc += 2;
    }

    /// `8xy4`: Vx += Vy modulo 256; the flag is 1 if the sum passed 255.
    fn add_vy_to_vx(&mut self, x: usize, y: usize)
        requires
            x < NUM_REGISTERS,
            y < NUM_REGISTERS,
            old(self)@.pc <= LAST_INSTRUCTION,
        ensures
            final(self)@ == old(self)@.add_register(x as int, y as int),
    {
        proof { use_type_invariant(&*self); }
        let addition = self.v[x].wrapping_add(self.v[y]);
        let overflow = addition < self.v[x];
        self.v[FLAG] = if overflow {
            1
        } else {
            0
        };
        self.v[x] = addition;
        self.pc += 2;
    }

    /// `8xy5`: Vx -= Vy modulo 256; the flag is 1 if nothing was borrowed.
    fn subtract_vy_from_vx(&mut self, x: usize, y: usize)
        requires
            x < NUM_REGISTERS,
            y < NUM_REGISTERS,
            old(self)@.pc <= LAST_INSTRUCTION,
        ensures
            final(self)@ == old(self)@.subtract_register(x as int, y as int),
    {
        proof { use_type_invariant(&*self); }
        let difference = self.v[x].wrapping_sub(self.v[y]);
        let overflow = self.v[x] < self.v[y];
        self.v[FLAG] = if !overflow {
            1
        } else {
            0
        };
        self.v[x] = difference;
        self.pc += 2;
    }

    /// `8xy6`: the flag takes the lowest bit of Vx, then Vx >>= 1.
    fn store_least_significant_vx_bit_in_vf(&mut self, x: usize)
        requires
            x < NUM_REGISTERS,
            old(self)@.pc <= LAST_INSTRUCTION,
        ensures
            final(self)@ == old(self)@.shift_right(x as int),
    {
        proof { use_type_invariant(&*self); }
        let value = self.v[x];
        assert(value & 0x1 == value % 2) by (bit_vector);
        self.v[FLAG] = value & 0x1;
        let value = self.v[x];
        assert(value >> 1 == value / 2) by (bit_vector);
        self.v[x] = value >> 1;
        self.pc += 2;
    }

    /// `8xy7`: Vx = Vy - Vx modulo 256; the flag is 1 if nothing was borrowed.
    fn set_vx_to_vy_minus_vx(&mut self, x: usize, y: usize)
        requires
            x < NUM_REGISTERS,
            y < NUM_REGISTERS,
            old(self)@.pc <= LAST_INSTRUCTION,
        ensures
            final(self)@ == old(self)@.subtract_from_register(x as int, y as int),
    {
        proof { use_type_invariant(&*self); }
        let difference = self.v[y].wrapping_sub(self.v[x]);
        let overflow = self.v[y] < self.v[x];
        self.v[FLAG] = if !overflow {
            1
        } else {
            0
        };
        self.v[x] = difference;
        self.pc += 2;
    }

    /// `8xyE`: the flag takes the highest bit of Vx, then Vx <<= 1.
    fn store_most_significant_vx_bit_in_vf(&mut self, x: usize)
        requires
            x < NUM_REGISTERS,
            old(self)@.pc <= LAST_INSTRUCTION,
        ensures
            final(self)@ == old(self)@.shift_left(x as int),
    {
        proof { use_type_invariant(&*self); }
        let value = self.v[x];
        assert((value >> 7) & 0x1 == value / 128) by (bit_vector);
        self.v[FLAG] = (value >> 7) & 0x1;
        let value = self.v[x];
        assert(value << 1 == (value * 2) % 256) by (bit_vector);
        self.v[x] = value << 1;
        self.pc += 2;
    }

    /// `9xy_`: skips the next instruction if Vx differs from Vy.
    fn skip_next_instruction_if_vx_not_equals_vy(&mut self, x: usize, y: usize)
        requires
            x < NUM_REGISTERS,
            y < NUM_REGISTERS,
            old(self)@.pc <= LAST_INSTRUCTION,
        ensures
            final(self)@ == old(self)@.skip_if(
                old(self)@.registers[x as int] != old(self)@.registers[y as int],
            ),
    {
        proof { use_type_invariant(&*self); }
        if self.v[x] != self.v[y] {
            self.pc += 2;
        }
        self.pc += 2;
    }

    /// `Annn`: I = `address`.
    fn set_i_to_nnn(&mut self, address: u16)
        requires
            old(self)@.pc <= LAST_INSTRUCTION,
        ensures
            final(self)@ == old(self)@.load_index(address),
    {
        proof { use_type_invariant(&*self); }
        self.i = address;
        self.pc += 2;
    }

    /// `Bnnn`: goes on at `address` with V0 added into its low byte modulo 256.
    fn jump_to_nnn_plus_v0(&mut self, address: u16)
        ensures
            final(self)@ == old(self)@.jump_offset(address),
    {
        proof { use_type_invariant(&*self); }
        let low = (address % 256 + self.v[0] as u16) % 256;
        self.pc = (address - address % 256 + low) as usize;
    }

    /// `Cxnn`: Vx = `random` & `mask`.
    fn set_vx_to_bitwise_and_with_rand(&mut self, x: usize, mask: u8, random: u8)
        requires
            x < NUM_REGISTERS,
            old(self)@.pc <= LAST_INSTRUCTION,
        ensures
            final(self)@ == old(self)@.random(x as int, mask, random),
    {
        proof { use_type_invariant(&*self); }
        self.v[x] = random & mask;
        self.pc += 2;
    }

    /// Draws the sprite row `bits` by exclusive or into the screen row `y`,
    /// from the column `left` on and as far as the screen reaches; says
    /// whether a lit pixel went out.
    fn draw_sprite_row(&mut self, bits: u8, left: u8, y: usize) -> (collision: bool)
        requires
            left < SCREEN_WIDTH,
            y < SCREEN_HEIGHT,
        ensures
            final(self)@ == (Machine { screen: final(self)@.screen, ..old(self)@ }),
            forall|px: int, py: int|
                0 <= px < SCREEN_WIDTH && 0 <= py < SCREEN_HEIGHT
                    ==> #[trigger] final(self)@.screen[px][py] == (old(self)@.screen[px][py] != (py
                    == y && row_covers(bits, left as int, 8, px))),
            collision == row_collides(old(self)@.screen, bits, left as int, 8, y as int),
    {
        let ghost before = self@.screen;
        let mut collision = false;
        let mut column: u8 = 0;
        while column < 8
            invariant
                column <= 8,
                left < SCREEN_WIDTH,
                y < SCREEN_HEIGHT,
                before == old(self)@.screen,
                self@ == (Machine { screen: self@.screen, ..old(self)@ }),
                forall|px: int, py: int|
                    0 <= px < SCREEN_WIDTH && 0 <= py < SCREEN_HEIGHT
                        ==> #[trigger] self.graphics[px][py] == (before[px][py] != (py == y
                        && row_covers(bits, left as int, column as int, px))),
                collision == row_collides(before, bits, left as int, column as int, y as int),
            decreases 8 - column,
        {
            proof { use_type_invariant(&*self); }
            let x = left as usize + column as usize;
            let ghost collided = collision;
            if x < SCREEN_WIDTH {
                let lit = self.graphics[x][y];
                let sprite_bit = (bits >> (7 - column)) & 0x1 == 1;
                if lit && sprite_bit {
                    collision = true;
                }
                self.graphics[x][y] = lit != sprite_bit;
            }
            proof {
                let seen = column as int;
                let next = column + 1;
                assert forall|px: int|
                    row_covers(bits, left as int, next, px) == (row_covers(
                        bits,
                        left as int,
                        seen,
                        px,
                    ) || (px == x && sprite_bit(bits, column))) by {}
                if collided {
                    let px = choose|px: int|
                        0 <= px < SCREEN_WIDTH && #[trigger] before[px][y as int] && row_covers(
                            bits,
                            left as int,
                            seen,
                            px,
                        );
                    assert(before[px][y as int] && row_covers(bits, left as int, next, px));
                } else if collision {
                    assert(before[x as int][y as int] == old(self).graphics[x as int][y as int]);
                    assert(before[x as int][y as int] && row_covers(
                        bits,
                        left as int,
                        next,
                        x as int,
                    ));
                }
            }
            column += 1;
        }
        collision
    }

    /// `Dxyn`: draws the `rows` bytes at I as a sprite at (Vx mod 64, Vy mod 32),
    /// cut off at the right and bottom edges; the flag is 1 if a lit pixel
    /// went out.
    fn draw_sprite_at_vx_vy(&mut self, x: usize, y: usize, rows: u8) -> (outcome: Result<
        (),
        FaultKind,
    >)
        requires
            x < NUM_REGISTERS,
            y < NUM_REGISTERS,
            rows < 16,
            old(self)@.pc <= LAST_INSTRUCTION,
        ensures
            lands(outcome, final(self)@, old(self)@.draw(x as int, y as int, rows), old(self)@),
    {
        proof { use_type_invariant(&*self); }
        let left = self.v[x] % 64;
        let top = self.v[y] % 32;
        let start = self.i as usize;
        if rows > 0 && start + rows as usize > MEMORY_SIZE {
            return Err(FaultKind::IndexOutOfBounds);
        }
        let ghost before = self@;
        let mut collision = false;
        let mut row: u8 = 0;
        while row < rows
            invariant
                row <= rows < 16,
                left < SCREEN_WIDTH,
                top < SCREEN_HEIGHT,
                start == before.index,
                rows > 0 ==> start + rows <= MEMORY_SIZE,
                self@ == (Machine { screen: self@.screen, ..before }),
                forall|px: int, py: int|
                    0 <= px < SCREEN_WIDTH && 0 <= py < SCREEN_HEIGHT
                        ==> #[trigger] self@.screen[px][py] == (before.screen[px][py]
                        != before.sprite_covers(left as int, top as int, row as int, px, py)),
                collision == before.sprite_collides(left as int, top as int, row as int),
            decreases rows - row,
        {
            proof { use_type_invariant(&*self); }
            let bits = self.memory_buffer[start + row as usize];
            let py = top as usize + row as usize;
            let ghost collided = collision;
            let ghost drawn = self@.screen;
            if py < SCREEN_HEIGHT {
                if self.draw_sprite_row(bits, left, py) {
                    collision = true;
                }
            }
            proof {
                let l = left as int;
                let t = top as int;
                let seen = row as int;
                let next = row + 1;
                assert forall|qx: int, qy: int|
                    before.sprite_covers(l, t, next, qx, qy) == (before.sprite_covers(
                        l,
                        t,
                        seen,
                        qx,
                        qy,
                    ) || (qy == py && row_covers(bits, l, 8, qx))) by {}
                if collided {
                    let (qx, qy) = choose|qx: int, qy: int|
                        0 <= qx < SCREEN_WIDTH && 0 <= qy < SCREEN_HEIGHT
                            && #[trigger] before.screen[qx][qy] && before.sprite_covers(
                            l,
                            t,
                            seen,
                            qx,
                            qy,
                        );
                    assert(before.screen[qx][qy] && before.sprite_covers(l, t, next, qx, qy));
                } else if collision {
                    let qx = choose|qx: int|
                        0 <= qx < SCREEN_WIDTH && #[trigger] drawn[qx][py as int] && row_covers(
                            bits,
                            l,
                            8,
                            qx,
                        );
                    assert(before.screen[qx][py as int] && before.sprite_covers(
                        l,
                        t,
                        next,
                        qx,
                        py as int,
                    ));
                } else if before.sprite_collides(l, t, next) {
                    let (qx, qy) = choose|qx: int, qy: int|
                        0 <= qx < SCREEN_WIDTH && 0 <= qy < SCREEN_HEIGHT
                            && #[trigger] before.screen[qx][qy] && before.sprite_covers(
                            l,
                            t,
                            next,
                            qx,
                            qy,
                        );
                    assert(drawn[qx][qy] == before.screen[qx][qy]);
                }
            }
            row += 1;
        }
        proof { use_type_invariant(&*self); }
        self.v[FLAG] = if collision {
            1
        } else {
            0
        };
        self.pc += 2;
        assert(self@.screen =~~= before.draw(x as int, y as int, rows)->Ok_0.screen);
        Ok(())
    }

    /// `Ex9E`: skips the next instruction if the key Vx is down.
    fn skip_next_instruction_if_vx_key_is_pressed(&mut self, x: usize) -> (outcome: Result<
        (),
        FaultKind,
    >)
        requires
            x < NUM_REGISTERS,
            old(self)@.pc <= LAST_INSTRUCTION,
        ensures
            lands(outcome, final(self)@, old(self)@.skip_on_key(x as int, true), old(self)@),
    {
        proof { use_type_invariant(&*self); }
        let key = self.v[x] as usize;
        if key >= NUM_KEYS {
            return Err(FaultKind::KeyOutOfRange);
        }
        if self.keys[key] {
            self.pc += 2;
        }
        self.pc += 2;
        Ok(())
    }

    /// `ExA1`: skips the next instruction if the key Vx is up.
    fn skip_next_instruction_if_vx_key_is_not_pressed(&mut self, x: usize) -> (outcome: Result<
        (),
        FaultKind,
    >)
        requires
            x < NUM_REGISTERS,
            old(self)@.pc <= LAST_INSTRUCTION,
        ensures
            lands(outcome, final(self)@, old(self)@.skip_on_key(x as int, false), old(self)@),
    {
        proof { use_type_invariant(&*self); }
        let key = self.v[x] as usize;
        if key >= NUM_KEYS {
            return Err(FaultKind::KeyOutOfRange);
        }
        if !self.keys[key] {
            self.pc += 2;
        }
        self.pc += 2;
        Ok(())
    }

    /// `Fx07`: Vx = delay timer.
    fn set_vx_to_delay_timer_value(&mut self, x: usize)
        requires
            x < NUM_REGISTERS,
            old(self)@.pc <= LAST_INSTRUCTION,
        ensures
            final(self)@ == old(self)@.load_delay_timer(x as int),
    {
        proof { use_type_invariant(&*self); }
        self.v[x] = self.delay_timer;
        self.pc += 2;
    }

    /// The lowest key that is down, if any.
    fn first_key_down(&self) -> (found: Option<u8>)
        ensures
            found == first_key_down(self@.keys, 0),
    {
        let mut idx: usize = 0;
        while idx < NUM_KEYS
            invariant
                idx <= NUM_KEYS,
                first_key_down(self@.keys, 0) == first_key_down(self@.keys, idx as int),
            decreases NUM_KEYS - idx,
        {
            if self.keys[idx] {
                return Some(idx as u8);
            }
            idx += 1;
        }
        None
    }

    /// `Fx0A`: Vx = the lowest key that is down; with none down, nothing
    /// changes and the instruction comes up again.
    fn await_key_press_and_store_in_vx(&mut self, x: usize)
        requires
            x < NUM_REGISTERS,
            old(self)@.pc <= LAST_INSTRUCTION,
        ensures
            final(self)@ == old(self)@.wait_for_key(x as int),
    {
        proof { use_type_invariant(&*self); }
        if let Some(key) = self.first_key_down() {
            self.v[x] = key;
            self.pc += 2;
        }
    }

    /// `Fx15`: delay timer = Vx.
    fn set_delay_timer_to_vx(&mut self, x: usize)
        requires
            x < NUM_REGISTERS,
            old(self)@.pc <= LAST_INSTRUCTION,
        ensures
            final(self)@ == old(self)@.store_delay_timer(x as int),
    {
        proof { use_type_invariant(&*self); }
        self.delay_timer = self.v[x];
        self.pc += 2;
    }

    /// `Fx18`: sound timer = Vx.
    fn set_sound_timer_to_vx(&mut self, x: usize)
        requires
            x < NUM_REGISTERS,
            old(self)@.pc <= LAST_INSTRUCTION,
        ensures
            final(self)@ == old(self)@.store_sound_timer(x as int),
    {
        proof { use_type_invariant(&*self); }
        self.sound_timer = self.v[x];
        self.pc += 2;
    }

    /// `Fx1E`: I += Vx modulo 65536.
    fn add_vx_to_i(&mut self, x: usize)
        requires
            x < NUM_REGISTERS,
            old(self)@.pc <= LAST_INSTRUCTION,
        ensures
            final(self)@ == old(self)@.add_to_index(x as int),
    {
        proof { use_type_invariant(&*self); }
        self.i = (self.v[x] as u16).wrapping_add(self.i);
        self.pc += 2;
    }

    /// `Fx29`: I = address of the glyph for the digit Vx.
    fn set_i_to_sprite_location(&mut self, x: usize)
        requires
            x < NUM_REGISTERS,
            old(self)@.pc <= LAST_INSTRUCTION,
        ensures
            final(self)@ == old(self)@.load_glyph(x as int),
    {
        proof { use_type_invariant(&*self); }
        let digit = self.v[x] as u16;
        assert(digit * GLYPH_SIZE == GLYPH_SIZE * digit <= 5 * 255) by (nonlinear_arith)
            requires
                digit <= 255,
                GLYPH_SIZE == 5,
        ;
        self.i = digit * GLYPH_SIZE as u16;
        self.pc += 2;
    }

    /// `Fx33`: the decimal digits of Vx go to I, I+1 and I+2.
    fn set_bcd_of_vx(&mut self, x: usize) -> (outcome: Result<(), FaultKind>)
        requires
            x < NUM_REGISTERS,
            old(self)@.pc <= LAST_INSTRUCTION,
        ensures
            lands(outcome, final(self)@, old(self)@.store_decimal(x as int), old(self)@),
    {
        proof { use_type_invariant(&*self); }
        let at = self.i as usize;
        if at + 2 >= MEMORY_SIZE {
            return Err(FaultKind::IndexOutOfBounds);
        }
        let value = self.v[x];
        self.memory_buffer[at] = value / 100;
        self.memory_buffer[at + 1] = (value / 10) % 10;
        self.memory_buffer[at + 2] = (value % 100) % 10;
        self.pc += 2;
        Ok(())
    }

    /// `Fx55`: V0..=Vx go to memory from I on.
    fn register_dump(&mut self, x: usize) -> (outcome: Result<(), FaultKind>)
        requires
            x < NUM_REGISTERS,
            old(self)@.pc <= LAST_INSTRUCTION,
        ensures
            lands(outcome, final(self)@, old(self)@.store_registers(x as int), old(self)@),
    {
        proof { use_type_invariant(&*self); }
        let at = self.i as usize;
        if at + x >= MEMORY_SIZE {
            return Err(FaultKind::IndexOutOfBounds);
        }
        let mut idx: usize = 0;
        while idx <= x
            invariant
                idx <= x + 1,
                x < NUM_REGISTERS,
                at == old(self)@.index,
                at + x < MEMORY_SIZE,
                self.sp <= STACK_LEVELS,
                self@ == (Machine { memory: self@.memory, ..old(self)@ }),
                forall|a: int|
                    0 <= a < MEMORY_SIZE ==> #[trigger] self@.memory[a] == (if at <= a < at + idx {
                        old(self)@.registers[a - at]
                    } else {
                        old(self)@.memory[a]
                    }),
            decreases x + 1 - idx,
        {
            let value = self.v[idx];
            self.memory_buffer[at + idx] = value;
            idx += 1;
        }
        self.pc += 2;
        assert(self@.memory =~= old(self)@.store_registers(x as int)->Ok_0.memory);
        Ok(())
    }

    /// `Fx65`: V0..=Vx come from memory from I on.
    fn register_load(&mut self, x: usize) -> (outcome: Result<(), FaultKind>)
        requires
            x < NUM_REGISTERS,
            old(self)@.pc <= LAST_INSTRUCTION,
        ensures
            lands(outcome, final(self)@, old(self)@.load_registers(x as int), old(self)@),
    {
        proof { use_type_invariant(&*self); }
        let at = self.i as usize;
        if at + x >= MEMORY_SIZE {
            return Err(FaultKind::IndexOutOfBounds);
        }
        let mut idx: usize = 0;
        while idx <= x
            invariant
                idx <= x + 1,
                x < NUM_REGISTERS,
                at == old(self)@.index,
                at + x < MEMORY_SIZE,
                self.sp <= STACK_LEVELS,
                self@ == (Machine { registers: self@.registers, ..old(self)@ }),
                forall|r: int|
                    0 <= r < NUM_REGISTERS ==> #[trigger] self@.registers[r] == (if r < idx {
                        old(self)@.memory[at + r]
                    } else {
                        old(self)@.registers[r]
                    }),
            decreases x + 1 - idx,
        {
            self.v[idx] = self.memory_buffer[at + idx];
            idx += 1;
        }
        self.pc += 2;
        assert(self@.registers =~= old(self)@.load_registers(x as int)->Ok_0.registers);
        Ok(())
    }

    /// Runs the instruction word `opcode` at the program counter, with
    /// `random` as the byte that the random source gives. The timers do not
    /// tick. On a fault the machine stays as it was.
    pub fn decode_opcode_with(&mut self, opcode: u16, random: u8) -> (outcome: Result<(), Fault>)
        ensures
            lands(outcome, final(self)@, old(self)@.step(opcode, random), old(self)@),
            final(self)@.well_formed(),
    {
        proof { use_type_invariant(&*self); }
        let pc = self.pc;
        if pc < PROGRAM_START || pc > LAST_INSTRUCTION {
            return Err(
                Fault { kind: FaultKind::ProgramCounterOutOfBounds, pc, opcode: Some(opcode) },
            );
        }
        let instruction = match (Opcode { value: opcode }).decode() {
            Some(instruction) => instruction,
            None => {
                return Err(
                    Fault { kind: FaultKind::UndefinedInstruction, pc, opcode: Some(opcode) },
                );
            },
        };
        let ran = match instruction {
            Instruction::ClearScreen => {
                self.clear_screen();
                Ok(())
            },
            Instruction::Return => self.return_from_subroutine(),
            Instruction::Jump { address } => {
                self.jump_to_nnn(address);
                Ok(())
            },
            Instruction::Call { address } => self.call_subroutine_at_nnn(address),
            Instruction::SkipIfEqual { x, value } => {
                self.skip_next_instruction_if_vx_equals_nn(x, value);
                Ok(())
            },
            Instruction::SkipIfNotEqual { x, value } => {
                self.skip_next_instruction_if_vx_not_equals_nn(x, value);
                Ok(())
            },
            Instruction::SkipIfRegistersEqual { x, y } => {
                self.skip_next_instruction_if_vx_equals_vy(x, y);
                Ok(())
            },
            Instruction::LoadImmediate { x, value } => {
                self.set_vx_to_nn(x, value);
                Ok(())
            },
            Instruction::AddImmediate { x, value } => {
                self.add_nn_to_vx(x, value);
                Ok(())
            },
            Instruction::LoadRegister { x, y } => {
                self.set_vx_to_vy(x, y);
                Ok(())
            },
            Instruction::Or { x, y } => {
                self.set_vx_to_vx_or_vy(x, y);
                Ok(())
            },
            Instruction::And { x, y } => {
                self.set_vx_to_vx_and_vy(x, y);
                Ok(())
            },
            Instruction::Xor { x, y } => {
                self.set_vx_to_vx_xor_vy(x, y);
                Ok(())
            },
            Instruction::AddRegister { x, y } => {
                self.add_vy_to_vx(x, y);
                Ok(())
            },
            Instruction::SubtractRegister { x, y } => {
                self.subtract_vy_from_vx(x, y);
                Ok(())
            },
            Instruction::ShiftRight { x } => {
                self.store_least_significant_vx_bit_in_vf(x);
                Ok(())
            },
            Instruction::SubtractFromRegister { x, y } => {
                self.set_vx_to_vy_minus_vx(x, y);
                Ok(())
            },
            Instruction::ShiftLeft { x } => {
                self.store_most_significant_vx_bit_in_vf(x);
                Ok(())
            },
            Instruction::SkipIfRegistersNotEqual { x, y } => {
                self.skip_next_instruction_if_vx_not_equals_vy(x, y);
                Ok(())
            },
            Instruction::LoadIndex { address } => {
                self.set_i_to_nnn(address);
                Ok(())
            },
            Instruction::JumpOffset { address } => {
                self.jump_to_nnn_plus_v0(address);
                Ok(())
            },
            Instruction::Random { x, mask } => {
                self.set_vx_to_bitwise_and_with_rand(x, mask, random);
                Ok(())
            },
            Instruction::Draw { x, y, rows } => self.draw_sprite_at_vx_vy(x, y, rows),
            Instruction::SkipIfKeyDown { x } => self.skip_next_instruction_if_vx_key_is_pressed(x),
            Instruction::SkipIfKeyUp { x } => self.skip_next_instruction_if_vx_key_is_not_pressed(
                x,
            ),
            Instruction::LoadDelayTimer { x } => {
                self.set_vx_to_delay_timer_value(x);
                Ok(())
            },
            Instruction::WaitForKey { x } => {
                self.await_key_press_and_store_in_vx(x);
                Ok(())
            },
            Instruction::StoreDelayTimer { x } => {
                self.set_delay_timer_to_vx(x);
                Ok(())
            },
            Instruction::StoreSoundTimer { x } => {
                self.set_sound_timer_to_vx(x);
                Ok(())
            },
            Instruction::AddToIndex { x } => {
                self.add_vx_to_i(x);
                Ok(())
            },
            Instruction::LoadGlyph { x } => {
                self.set_i_to_sprite_location(x);
                Ok(())
            },
            Instruction::StoreDecimal { x } => self.set_bcd_of_vx(x),
            Instruction::StoreRegisters { x } => self.register_dump(x),
            Instruction::LoadRegisters { x } => self.register_load(x),
        };
        proof { use_type_invariant(&*self); }
        match ran {
            Ok(()) => Ok(()),
            Err(kind) => Err(Fault { kind, pc, opcode: Some(opcode) }),
        }
    }

    /// Runs the instruction word `opcode` at the program counter; where it
    /// is `Cxnn`, the byte comes from the random source. The timers do not
    /// tick. On a fault the machine stays as it was.
    pub fn decode_opcode(&mut self, opcode: u16) -> (outcome: Result<(), Fault>)
        ensures
            exists|random: u8|
                lands(
                    outcome,
                    final(self)@,
                    #[trigger] old(self)@.step(opcode, random),
                    old(self)@,
                ),
            !(decode(opcode) matches Some(Instruction::Random { .. })) ==> lands(
                outcome,
                final(self)@,
                old(self)@.step(opcode, 0),
                old(self)@,
            ),
            final(self)@.well_formed(),
    {
        let random = if (Opcode { value: opcode }).fetch_highest_nibble() == 0xC000 {
            random_byte()
        } else {
            0
        };
        self.decode_opcode_with(opcode, random)
    }

    /// Lets both timers tick once: each goes down by one unless it is at
    /// zero.
    pub fn tick_timers(&mut self)
        ensures
            final(self)@ == old(self)@.tick_timers(),
            final(self)@.well_formed(),
    {
        proof { use_type_invariant(&*self); }
        if self.delay_timer > 0 {
            self.delay_timer -= 1;
        }
        if self.sound_timer > 0 {
            self.sound_timer -= 1;
        }
    }

    /// Whether the machine is suspended on a wait for a key, so that a
    /// cycle now would leave the program counter where it is.
    pub fn awaiting_key(&self) -> (waiting: bool)
        ensures
            waiting == self@.awaiting_key(),
    {
        match self.fetch_opcode() {
            Ok(opcode) => match (Opcode { value: opcode }).decode() {
                Some(Instruction::WaitForKey { .. }) => self.first_key_down().is_none(),
                _ => false,
            },
            Err(_) => false,
        }
    }

    /// One cycle with `random` as the byte that the random source gives:
    /// fetches the word at the program counter, runs it, then lets both
    /// timers tick. On a fault the machine stays as it was, timers included.
    pub fn emulate_cycle_with(&mut self, random: u8) -> (outcome: Result<(), Fault>)
        ensures
            lands(outcome, final(self)@, old(self)@.cycle(random), old(self)@),
            final(self)@.well_formed(),
    {
        proof { use_type_invariant(&*self); }
        let opcode = match self.fetch_opcode() {
            Ok(opcode) => opcode,
            Err(fault) => {
                return Err(fault);
            },
        };
        match self.decode_opcode_with(opcode, random) {
            Ok(()) => {},
            Err(fault) => {
                return Err(fault);
            },
        }
        self.tick_timers();
        Ok(())
    }

    /// One cycle: fetches the word at the program counter, runs it, then
    /// lets both timers tick; where the word is `Cxnn`, the byte comes from
    /// the random source. On a fault the machine stays as it was, timers
    /// included.
    pub fn emulate_cycle(&mut self) -> (outcome: Result<(), Fault>)
        ensures
            exists|random: u8|
                lands(
                    outcome,
                    final(self)@,
                    #[trigger] old(self)@.cycle(random),
                    old(self)@,
                ),
            !old(self)@.next_is_random() ==> lands(
                outcome,
                final(self)@,
                old(self)@.cycle(0),
                old(self)@,
            ),
            final(self)@.well_formed(),
    {
        proof { use_type_invariant(&*self); }
        let opcode = match self.fetch_opcode() {
            Ok(opcode) => opcode,
            Err(fault) => {
                assert(lands(Err::<(), Fault>(fault), self@, old(self)@.cycle(0), old(self)@));
                return Err(fault);
            },
        };
        match self.decode_opcode(opcode) {
            Ok(()) => {},
            Err(fault) => {
                proof {
                    let random = choose|random: u8|
                        lands(
                            Err::<(), Fault>(fault),
                            self@,
                            #[trigger] old(self)@.step(opcode, random),
                            old(self)@,
                        );
                    assert(lands(
                        Err::<(), Fault>(fault),
                        self@,
                        old(self)@.cycle(random),
                        old(self)@,
                    ));
                }
                return Err(fault);
            },
        }
        let ghost ran = self@;
        self.tick_timers();
        proof {
            let random = choose|random: u8|
                lands(
                    Ok::<(), Fault>(()),
                    ran,
                    #[trigger] old(self)@.step(opcode, random),
                    old(self)@,
                );
            assert(lands(Ok::<(), Fault>(()), self@, old(self)@.cycle(random), old(self)@));
        }
        Ok(())
    }
}

} // verus!
