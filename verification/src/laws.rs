//! What holds of the machine whatever program it runs.

use vstd::prelude::*;
use crate::fault::{Fault, FaultKind};
use crate::instruction::{decode, decoded_is_well_formed, Instruction};
use crate::machine::{
    blank_screen, first_key_down, Machine, FLAG, MEMORY_SIZE, NUM_KEYS, NUM_REGISTERS,
    ROM_CAPACITY, SCREEN_HEIGHT, SCREEN_WIDTH, STACK_LEVELS,
};

verus! {

/// A machine that has just loaded a program that fits is well formed.
pub proof fn boot_is_well_formed(rom: Seq<u8>)
    requires
        rom.len() <= ROM_CAPACITY,
    ensures
        Machine::boot(rom).well_formed(),
{
}

/// No instruction changes the size of memory, of the register file, of the
/// keypad or of the screen, and none leaves more return addresses on the
/// stack than it has levels.
pub proof fn execute_keeps_well_formed(m: Machine, instruction: Instruction, random: u8)
    requires
        m.well_formed(),
        instruction.well_formed(),
    ensures
        m.execute(instruction, random) matches Ok(next) ==> next.well_formed(),
{
}

/// A whole cycle keeps the machine well formed.
pub proof fn cycle_keeps_well_formed(m: Machine, random: u8)
    requires
        m.well_formed(),
    ensures
        m.cycle(random) matches Ok(next) ==> next.well_formed(),
{
    if let Ok(opcode) = m.fetch() {
        if let Some(instruction) = decode(opcode) {
            decoded_is_well_formed(opcode);
            execute_keeps_well_formed(m, instruction, random);
        }
    }
}

/// No instruction changes the keys; none but a draw and a clear changes
/// the screen; none but the two stores changes memory.
pub proof fn execute_touches_little(m: Machine, instruction: Instruction, random: u8)
    ensures
        m.execute(instruction, random) matches Ok(next) ==> {
            &&& next.keys == m.keys
            &&& instruction is Draw || instruction is ClearScreen || next.screen == m.screen
            &&& instruction is StoreDecimal || instruction is StoreRegisters || next.memory
                == m.memory
        },
{
}

/// A cycle leaves the keys as the host set them.
pub proof fn cycle_leaves_keys(m: Machine, random: u8)
    ensures
        m.cycle(random) matches Ok(next) ==> next.keys == m.keys,
{
    if let Ok(opcode) = m.fetch() {
        if let Some(instruction) = decode(opcode) {
            execute_touches_little(m, instruction, random);
        }
    }
}

/// The byte of the random source matters to no instruction but `Cxnn`.
pub proof fn random_matters_to_random_only(m: Machine, opcode: u16, first: u8, second: u8)
    requires
        !(decode(opcode) matches Some(Instruction::Random { .. })),
    ensures
        m.step(opcode, first) == m.step(opcode, second),
{
}

/// A cycle that does not come to `Cxnn` is the same whatever byte the
/// random source would give.
pub proof fn random_matters_to_random_cycle_only(m: Machine, first: u8, second: u8)
    requires
        !m.next_is_random(),
    ensures
        m.cycle(first) == m.cycle(second),
{
}

/// The word `1nnn` is the jump to `nnn`, and a jump makes `nnn` the program
/// counter and changes nothing else.
pub proof fn jump_sets_program_counter(m: Machine, address: u16, random: u8)
    requires
        address <= 0xFFF,
    ensures
        decode((0x1000 + address) as u16) == Some(Instruction::Jump { address }),
        m.execute(Instruction::Jump { address }, random) == Ok::<Machine, FaultKind>(
            Machine { pc: address as nat, ..m },
        ),
        m.at_instruction() ==> m.step((0x1000 + address) as u16, random) == Ok::<Machine, Fault>(
            Machine { pc: address as nat, ..m },
        ),
{
}

/// A call with a stack level free succeeds; a return that follows a call
/// gives back the machine as it was before the call, with the program
/// counter on the instruction after the call. So the stack pointer is what
/// it was.
pub proof fn call_then_return(m: Machine, address: u16, random: u8)
    ensures
        m.stack.len() < STACK_LEVELS ==> m.execute(Instruction::Call { address }, random) is Ok,
        m.execute(Instruction::Call { address }, random) matches Ok(called) ==> {
            &&& called.pc == address
            &&& called.stack.len() == m.stack.len() + 1
            &&& called.execute(Instruction::Return, random) == Ok::<Machine, FaultKind>(
                m.advance(2),
            )
        },
{
    if let Ok(called) = m.execute(Instruction::Call { address }, random) {
        assert(called.stack.drop_last() =~= m.stack);
    }
}

/// Between a call and its return the machine may do anything that leaves
/// the stack as the call left it: the return still lands on the
/// instruction after the call, with the stack as it was before the call.
pub proof fn return_lands_after_call(m: Machine, address: u16, later: Machine, random: u8)
    requires
        m.execute(Instruction::Call { address }, random) matches Ok(called) && later.stack
            == called.stack,
    ensures
        later.execute(Instruction::Return, random) matches Ok(returned) && returned.pc == m.pc + 2
            && returned.stack == m.stack,
{
    assert(later.stack.drop_last() =~= m.stack);
}

/// A skip on a comparison of a register with an immediate or with another
/// register moves the program counter by 4 where the comparison holds and
/// by 2 where it does not, and changes nothing else.
pub proof fn skip_on_comparison(m: Machine, x: usize, y: usize, value: u8, random: u8)
    ensures
        m.execute(Instruction::SkipIfEqual { x, value }, random) == Ok::<Machine, FaultKind>(
            Machine {
                pc: m.pc + if m.registers[x as int] == value {
                    4nat
                } else {
                    2nat
                },
                ..m
            },
        ),
        m.execute(Instruction::SkipIfNotEqual { x, value }, random) == Ok::<Machine, FaultKind>(
            Machine {
                pc: m.pc + if m.registers[x as int] != value {
                    4nat
                } else {
                    2nat
                },
                ..m
            },
        ),
        m.execute(Instruction::SkipIfRegistersEqual { x, y }, random) == Ok::<Machine, FaultKind>(
            Machine {
                pc: m.pc + if m.registers[x as int] == m.registers[y as int] {
                    4nat
                } else {
                    2nat
                },
                ..m
            },
        ),
        m.execute(Instruction::SkipIfRegistersNotEqual { x, y }, random) == Ok::<
            Machine,
            FaultKind,
        >(
            Machine {
                pc: m.pc + if m.registers[x as int] != m.registers[y as int] {
                    4nat
                } else {
                    2nat
                },
                ..m
            },
        ),
{
}

/// A skip on a key that the keypad has moves the program counter by 4
/// where the key is in the state asked for and by 2 where it is not, and
/// changes nothing else.
pub proof fn skip_on_key_state(m: Machine, x: usize, random: u8)
    requires
        m.registers[x as int] < NUM_KEYS,
    ensures
        m.execute(Instruction::SkipIfKeyDown { x }, random) == Ok::<Machine, FaultKind>(
            Machine {
                pc: m.pc + if m.keys[m.registers[x as int] as int] {
                    4nat
                } else {
                    2nat
                },
                ..m
            },
        ),
        m.execute(Instruction::SkipIfKeyUp { x }, random) == Ok::<Machine, FaultKind>(
            Machine {
                pc: m.pc + if !m.keys[m.registers[x as int] as int] {
                    4nat
                } else {
                    2nat
                },
                ..m
            },
        ),
{
}

/// An addition into a register other than the flag register leaves the
/// sum modulo 256 there, and 1 in the flag exactly if the sum passed 255.
pub proof fn add_reports_carry(m: Machine, x: usize, y: usize, random: u8)
    requires
        m.well_formed(),
        x < NUM_REGISTERS,
        x != FLAG,
    ensures
        m.execute(Instruction::AddRegister { x, y }, random) matches Ok(next) && {
            let sum = m.registers[x as int] + m.registers[y as int];
            &&& next.registers[x as int] == sum % 256
            &&& next.registers[FLAG as int] == if sum > 255 {
                1int
            } else {
                0int
            }
            &&& next.pc == m.pc + 2
        },
{
}

/// A subtraction into a register other than the flag register leaves the
/// difference modulo 256 there, and 1 in the flag exactly if nothing was
/// borrowed: `8xy5` takes Vy from Vx, `8xy7` takes Vx from Vy.
pub proof fn subtract_reports_no_borrow(m: Machine, x: usize, y: usize, random: u8)
    requires
        m.well_formed(),
        x < NUM_REGISTERS,
        x != FLAG,
    ensures
        m.execute(Instruction::SubtractRegister { x, y }, random) matches Ok(next) && {
            let difference = m.registers[x as int] - m.registers[y as int];
            &&& next.registers[x as int] == difference % 256
            &&& next.registers[FLAG as int] == if m.registers[x as int] >= m.registers[y as int] {
                1int
            } else {
                0int
            }
            &&& next.pc == m.pc + 2
        },
        m.execute(Instruction::SubtractFromRegister { x, y }, random) matches Ok(next) && {
            let difference = m.registers[y as int] - m.registers[x as int];
            &&& next.registers[x as int] == difference % 256
            &&& next.registers[FLAG as int] == if m.registers[y as int] >= m.registers[x as int] {
                1int
            } else {
                0int
            }
            &&& next.pc == m.pc + 2
        },
{
}

/// A shift of a register other than the flag register leaves in the flag
/// the bit that was shifted out: the lowest on a shift right, the highest
/// on a shift left.
pub proof fn shift_reports_lost_bit(m: Machine, x: usize, random: u8)
    requires
        m.well_formed(),
        x < NUM_REGISTERS,
        x != FLAG,
    ensures
        m.execute(Instruction::ShiftRight { x }, random) matches Ok(next) && {
            &&& next.registers[x as int] == m.registers[x as int] / 2
            &&& next.registers[FLAG as int] == m.registers[x as int] % 2
            &&& next.pc == m.pc + 2
        },
        m.execute(Instruction::ShiftLeft { x }, random) matches Ok(next) && {
            &&& next.registers[x as int] == (m.registers[x as int] * 2) % 256
            &&& next.registers[FLAG as int] == m.registers[x as int] / 128
            &&& next.pc == m.pc + 2
        },
{
}

/// The three bytes that `Fx33` stores are decimal digits, and read as
/// hundreds, tens and ones they give Vx; no other byte of memory changes.
pub proof fn store_decimal_stores_digits(m: Machine, x: usize, random: u8)
    requires
        m.well_formed(),
        x < NUM_REGISTERS,
        m.index + 2 < MEMORY_SIZE,
    ensures
        m.execute(Instruction::StoreDecimal { x }, random) matches Ok(next) && {
            let at = m.index as int;
            &&& next.memory[at] < 10 && next.memory[at + 1] < 10 && next.memory[at + 2] < 10
            &&& 100 * next.memory[at] + 10 * next.memory[at + 1] + next.memory[at + 2]
                == m.registers[x as int]
            &&& forall|a: int|
                0 <= a < MEMORY_SIZE && !(at <= a <= at + 2) ==> #[trigger] next.memory[a]
                    == m.memory[a]
            &&& next.index == m.index
        },
{
}

/// Storing V0..=Vx and loading them back from the same address gives every
/// register the value it had, and leaves the index register alone.
pub proof fn store_then_load_registers(m: Machine, x: usize, random: u8)
    requires
        m.well_formed(),
        x < NUM_REGISTERS,
        m.index + x < MEMORY_SIZE,
    ensures
        m.execute(Instruction::StoreRegisters { x }, random) matches Ok(stored) && stored.execute(
            Instruction::LoadRegisters { x },
            random,
        ) matches Ok(loaded) && loaded.registers == m.registers && loaded.index == m.index,
{
    let stored = m.execute(Instruction::StoreRegisters { x }, random)->Ok_0;
    let loaded = stored.execute(Instruction::LoadRegisters { x }, random)->Ok_0;
    assert(loaded.registers =~= m.registers);
}

/// Whatever happens to the registers after V0..=Vx were stored, loading
/// from memory that still holds them brings each of V0..=Vx back.
pub proof fn load_restores_stored_registers(m: Machine, x: usize, later: Machine, random: u8)
    requires
        m.well_formed(),
        later.well_formed(),
        x < NUM_REGISTERS,
        m.execute(Instruction::StoreRegisters { x }, random) matches Ok(stored) && later.memory
            == stored.memory,
        later.index == m.index,
    ensures
        later.execute(Instruction::LoadRegisters { x }, random) matches Ok(loaded) && forall|
            r: int,
        |
            0 <= r <= x ==> #[trigger] loaded.registers[r] == m.registers[r],
{
}

/// Drawing on a screen with no pixel lit reports no collision.
pub proof fn draw_on_blank_screen(m: Machine, x: usize, y: usize, rows: u8, random: u8)
    requires
        m.well_formed(),
        m.screen == blank_screen(),
    ensures
        m.execute(Instruction::Draw { x, y, rows }, random) matches Ok(drawn)
            ==> drawn.registers[FLAG as int] == 0,
{
    let left = (m.registers[x as int] % 64) as int;
    let top = (m.registers[y as int] % 32) as int;
    assert(!m.sprite_collides(left, top, rows as int));
}

/// Drawing a sprite that has a set bit on a lit pixel puts that pixel out
/// and reports a collision.
pub proof fn draw_on_lit_pixel(
    m: Machine,
    x: usize,
    y: usize,
    rows: u8,
    px: int,
    py: int,
    random: u8,
)
    requires
        m.well_formed(),
        0 <= px < SCREEN_WIDTH,
        0 <= py < SCREEN_HEIGHT,
        m.screen[px][py],
        m.sprite_covers(
            (m.registers[x as int] % 64) as int,
            (m.registers[y as int] % 32) as int,
            rows as int,
            px,
            py,
        ),
    ensures
        m.execute(Instruction::Draw { x, y, rows }, random) matches Ok(drawn) ==> {
            &&& drawn.registers[FLAG as int] == 1
            &&& !drawn.screen[px][py]
        },
{
}

/// Drawing the same sprite at the same place a second time gives back the
/// screen as it was before the first, provided neither coordinate is
/// taken from the flag register, which the first draw writes.
pub proof fn draw_twice_restores_screen(m: Machine, x: usize, y: usize, rows: u8, random: u8)
    requires
        m.well_formed(),
        x < NUM_REGISTERS,
        y < NUM_REGISTERS,
        x != FLAG,
        y != FLAG,
    ensures
        m.execute(Instruction::Draw { x, y, rows }, random) matches Ok(drawn) ==> (drawn.execute(
            Instruction::Draw { x, y, rows },
            random,
        ) matches Ok(again) && again.screen == m.screen),
{
    if let Ok(drawn) = m.execute(Instruction::Draw { x, y, rows }, random) {
        let again = drawn.execute(Instruction::Draw { x, y, rows }, random)->Ok_0;
        assert(again.screen =~~= m.screen);
    }
}

/// The scan from `from` finds the lowest key that is down at or above
/// `from`, and finds none only where none is down there.
pub proof fn first_key_down_is_lowest(keys: Seq<bool>, from: int)
    requires
        0 <= from,
        keys.len() <= 256,
    ensures
        match first_key_down(keys, from) {
            Some(key) => from <= key < keys.len() && keys[key as int] && forall|k: int|
                from <= k < key ==> !keys[k],
            None => forall|k: int| from <= k < keys.len() ==> !keys[k],
        },
    decreases keys.len() - from,
{
    if from < keys.len() && !keys[from] {
        first_key_down_is_lowest(keys, from + 1);
    }
}

/// While no key is down the wait changes nothing, so the program counter
/// stays on it; once a key is down, Vx takes the lowest such key and the
/// program counter moves on by 2.
pub proof fn wait_for_key_waits(m: Machine, x: usize, random: u8)
    requires
        m.well_formed(),
    ensures
        (forall|k: int| 0 <= k < NUM_KEYS ==> !m.keys[k]) ==> m.execute(
            Instruction::WaitForKey { x },
            random,
        ) == Ok::<Machine, FaultKind>(m),
        forall|key: int|
            0 <= key < NUM_KEYS && #[trigger] m.keys[key] && (forall|k: int|
                0 <= k < key ==> !m.keys[k]) ==> m.execute(Instruction::WaitForKey { x }, random)
                == Ok::<Machine, FaultKind>(
                Machine { registers: m.registers.update(x as int, key as u8), pc: m.pc + 2, ..m },
            ),
{
    first_key_down_is_lowest(m.keys, 0);
}

/// A cycle of a machine that awaits a key only lets the timers tick: the
/// program counter is where it was, and the machine still awaits a key.
pub proof fn cycle_while_awaiting_key(m: Machine, random: u8)
    requires
        m.well_formed(),
        m.awaiting_key(),
    ensures
        m.cycle(random) == Ok::<Machine, Fault>(m.tick_timers()),
        m.tick_timers().pc == m.pc,
        m.tick_timers().awaiting_key(),
{
}

/// A cycle on a wait with the key `key` down, and none below it, puts
/// `key` into Vx and moves the program counter on by 2.
pub proof fn cycle_on_wait_takes_key(m: Machine, x: usize, key: int, random: u8)
    requires
        m.well_formed(),
        x < NUM_REGISTERS,
        m.fetch() matches Ok(opcode) && decode(opcode) == Some(Instruction::WaitForKey { x }),
        0 <= key < NUM_KEYS,
        m.keys[key],
        forall|k: int| 0 <= k < key ==> !m.keys[k],
    ensures
        m.cycle(random) matches Ok(next) && next.pc == m.pc + 2 && next.registers[x as int] == key,
{
    wait_for_key_waits(m, x, random);
}

/// A program that begins with the word `1234` has the program counter at
/// `234` after its first cycle, whatever else it holds.
pub proof fn first_cycle_of_jump(rom: Seq<u8>, random: u8)
    requires
        2 <= rom.len() <= ROM_CAPACITY,
        rom[0] == 0x12,
        rom[1] == 0x34,
    ensures
        Machine::boot(rom).cycle(random) matches Ok(next) && next.pc == 0x234,
{
}

} // verus!
