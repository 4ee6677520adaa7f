//! The execution engine: what each instruction does to the machine.
//!
//! The instruction set is the one the table in [`execute_spec`] lists. A word
//! of family 5, 8 or 9 whose last nibble selects no operation is inert: it
//! retires and changes nothing but the program counter. Every other word
//! outside the table is unknown, and fatal.

use vstd::prelude::*;
use vstd::pervasive::unreached;
use crate::bits::add_u8_with_overflow;
use crate::display::{blank, blit_collides, blit_pixels, MAX_SPRITE_ROWS};
use crate::fault::{Fault, FaultKind};
use crate::font::{FONT_BASE, GLYPH_BYTES};
use crate::instruction::{
    n_of, nn_of, nnn_of, opcode_of, word_of, x_of, y_of, Instruction,
};
use crate::machine::{
    overlay, Machine, State, FLAG_REGISTER, MEMORY_SIZE, REGISTER_COUNT, STACK_LIMIT,
};

verus! {

/// The keys of the keypad.
pub const KEY_COUNT: usize = 16;

/// Whether the key with code `code` is held, in a snapshot of the keypad.
/// No key has a code of sixteen or more.
pub open spec fn key_held(keys: Seq<bool>, code: u8) -> bool {
    code < KEY_COUNT && keys[code as int]
}

/// The program counter `count` instructions further on. It is a 16-bit
/// value and wraps as one.
pub open spec fn pc_after(pc: u16, count: int) -> u16 {
    ((pc + 2 * count) % 0x10000) as u16
}

/// `state` with the program counter past the current instruction.
pub open spec fn advanced(state: State) -> State {
    State { pc: pc_after(state.pc, 1), ..state }
}

/// `state` with the program counter past the current instruction, and past
/// the next one too if `skip` holds.
pub open spec fn skipped(state: State, skip: bool) -> State {
    State {
        pc: pc_after(
            state.pc,
            if skip {
                2
            } else {
                1
            },
        ),
        ..state
    }
}

/// `state` with `value` in register `x`.
pub open spec fn with_register(state: State, x: int, value: u8) -> State {
    State { registers: state.registers.update(x, value), ..state }
}

/// `state` with `value` in register `x` and then `flag` in the flag
/// register. The flag is written last: it is what the flag register holds
/// afterwards even where `x` names the flag register itself.
pub open spec fn with_result(state: State, x: int, value: u8, flag: bool) -> State {
    with_register(
        with_register(state, x, value),
        FLAG_REGISTER as int,
        if flag {
            1u8
        } else {
            0u8
        },
    )
}

/// The effect of the register-to-register instruction `8XYN` on the
/// registers.
pub open spec fn alu_spec(state: State, x: int, y: int, n: int) -> State {
    let vx = state.registers[x];
    let vy = state.registers[y];
    if n == 0x0 {
        with_register(state, x, vy)
    } else if n == 0x1 {
        with_register(state, x, vx | vy)
    } else if n == 0x2 {
        with_register(state, x, vx & vy)
    } else if n == 0x3 {
        with_register(state, x, vx ^ vy)
    } else if n == 0x4 {
        with_result(state, x, ((vx + vy) % 256) as u8, vx + vy > 255)
    } else if n == 0x5 {
        with_result(state, x, ((vx - vy) % 256) as u8, vx >= vy)
    } else if n == 0x6 {
        with_result(state, x, (vx / 2) as u8, vx % 2 == 1)
    } else if n == 0x7 {
        with_result(state, x, ((vy - vx) % 256) as u8, vy >= vx)
    } else if n == 0xE {
        with_result(state, x, ((vx * 2) % 256) as u8, vx >= 128)
    } else {
        state
    }
}

/// The column of the display at which `DXYN` puts the sprite's left edge:
/// VX modulo the display's width.
pub open spec fn draw_column(state: State, x: int) -> int {
    state.registers[x] as int % 64
}

/// The row of the display at which `DXYN` puts the sprite's top edge: VY
/// modulo the display's height.
pub open spec fn draw_row(state: State, y: int) -> int {
    state.registers[y] as int % 32
}

/// The sprite that `DXYN` draws: the `n` bytes of memory from the index
/// pointer on.
pub open spec fn draw_sprite_bytes(state: State, n: int) -> Seq<u8> {
    state.memory.subrange(state.index as int, state.index + n)
}

/// The effect of the sprite blit `DXYN`. The origin is read first, then the
/// flag register is set to whether the blit collided.
pub open spec fn draw_spec(state: State, x: int, y: int, n: int) -> Result<State, FaultKind> {
    if state.index + n > MEMORY_SIZE {
        Err(FaultKind::AddressOutOfRange)
    } else {
        let sprite = draw_sprite_bytes(state, n);
        let column = draw_column(state, x);
        let row = draw_row(state, y);
        Ok(
            with_register(
                State {
                    pixels: blit_pixels(state.pixels, state.policy, column, row, sprite),
                    ..advanced(state)
                },
                FLAG_REGISTER as int,
                if blit_collides(state.pixels, state.policy, column, row, sprite) {
                    1u8
                } else {
                    0u8
                },
            ),
        )
    }
}

/// The three decimal digits of a byte: hundreds, tens, ones.
pub open spec fn decimal_digits(value: u8) -> Seq<u8> {
    seq![value / 100, value / 10 % 10, value % 10]
}

/// `registers` with the first `count` of them read from `memory`, starting
/// at address `base`.
pub open spec fn loaded_registers(
    registers: Seq<u8>,
    memory: Seq<u8>,
    base: int,
    count: int,
) -> Seq<u8> {
    Seq::new(
        registers.len(),
        |r: int|
            if r < count {
                memory[base + r]
            } else {
                registers[r]
            },
    )
}

/// The effect of the instruction `FXNN`.
pub open spec fn misc_spec(state: State, x: int, nn: int) -> Result<State, FaultKind> {
    let vx = state.registers[x];
    let next = advanced(state);
    if nn == 0x07 {
        Ok(with_register(next, x, state.delay_timer))
    } else if nn == 0x0A {
        Ok(State { key_wait: Some(x as u8), ..next })
    } else if nn == 0x15 {
        Ok(State { delay_timer: vx, ..next })
    } else if nn == 0x18 {
        Ok(State { sound_timer: vx, ..next })
    } else if nn == 0x1E {
        Ok(State { index: ((state.index + vx) % 0x10000) as u16, ..next })
    } else if nn == 0x29 {
        Ok(State { index: (FONT_BASE + GLYPH_BYTES * vx) as u16, ..next })
    } else if nn == 0x33 {
        if state.index + 2 >= MEMORY_SIZE {
            Err(FaultKind::AddressOutOfRange)
        } else {
            Ok(
                State {
                    memory: overlay(state.memory, state.index as int, decimal_digits(vx)),
                    ..next
                },
            )
        }
    } else if nn == 0x55 {
        if state.index + x >= MEMORY_SIZE {
            Err(FaultKind::AddressOutOfRange)
        } else {
            Ok(
                State {
                    memory: overlay(state.memory, state.index as int, state.registers.take(x + 1)),
                    ..next
                },
            )
        }
    } else if nn == 0x65 {
        if state.index + x >= MEMORY_SIZE {
            Err(FaultKind::AddressOutOfRange)
        } else {
            Ok(
                State {
                    registers: loaded_registers(
                        state.registers,
                        state.memory,
                        state.index as int,
                        x + 1,
                    ),
                    ..next
                },
            )
        }
    } else {
        Err(FaultKind::UnknownOpcode)
    }
}

/// What executing the instruction `word` does to `state`: the next state, or
/// the fatal condition it meets. `keys` is the snapshot of the keypad and
/// `random` the byte that a `CXNN` instruction uses.
///
/// | word   | effect |
/// |--------|--------|
/// | `00E0` | clear the display |
/// | `00EE` | return: pop the program counter |
/// | `1NNN` | jump to NNN |
/// | `2NNN` | call: push the program counter, jump to NNN |
/// | `3XNN` | skip the next instruction if VX == NN |
/// | `4XNN` | skip the next instruction if VX != NN |
/// | `5XY0` | skip the next instruction if VX == VY |
/// | `6XNN` | VX = NN |
/// | `7XNN` | VX = VX + NN, wrapping, no flag |
/// | `8XYN` | see [`alu_spec`] |
/// | `9XY0` | skip the next instruction if VX != VY |
/// | `ANNN` | index = NNN |
/// | `BNNN` | jump to NNN + V0 |
/// | `CXNN` | VX = random & NN |
/// | `DXYN` | see [`draw_spec`] |
/// | `EX9E` | skip the next instruction if the key with code VX is held |
/// | `EXA1` | skip the next instruction if the key with code VX is not held |
/// | `FXNN` | see [`misc_spec`] |
pub open spec fn execute_spec(state: State, word: u16, keys: Seq<bool>, random: u8) -> Result<
    State,
    FaultKind,
> {
    let opcode = opcode_of(word);
    let x = x_of(word) as int;
    let y = y_of(word) as int;
    let n = n_of(word);
    let nn = nn_of(word);
    let nnn = nnn_of(word);
    let vx = state.registers[x];
    let vy = state.registers[y];
    if opcode == 0x0 {
        if word == 0x00E0 {
            Ok(State { pixels: blank(), ..advanced(state) })
        } else if word == 0x00EE {
            if state.stack.len() == 0 {
                Err(FaultKind::StackUnderflow)
            } else {
                Ok(State { pc: state.stack.last(), stack: state.stack.drop_last(), ..state })
            }
        } else {
            Err(FaultKind::UnknownOpcode)
        }
    } else if opcode == 0x1 {
        Ok(State { pc: nnn, ..state })
    } else if opcode == 0x2 {
        if state.stack.len() >= STACK_LIMIT {
            Err(FaultKind::StackOverflow)
        } else {
            Ok(State { pc: nnn, stack: state.stack.push(pc_after(state.pc, 1)), ..state })
        }
    } else if opcode == 0x3 {
        Ok(skipped(state, vx == nn))
    } else if opcode == 0x4 {
        Ok(skipped(state, vx != nn))
    } else if opcode == 0x5 {
        Ok(skipped(state, n == 0 && vx == vy))
    } else if opcode == 0x6 {
        Ok(with_register(advanced(state), x, nn))
    } else if opcode == 0x7 {
        Ok(with_register(advanced(state), x, ((vx + nn) % 256) as u8))
    } else if opcode == 0x8 {
        Ok(alu_spec(advanced(state), x, y, n as int))
    } else if opcode == 0x9 {
        Ok(skipped(state, n == 0 && vx != vy))
    } else if opcode == 0xA {
        Ok(State { index: nnn, ..advanced(state) })
    } else if opcode == 0xB {
        Ok(State { pc: (nnn + state.registers[0]) as u16, ..state })
    } else if opcode == 0xC {
        Ok(with_register(advanced(state), x, random & nn))
    } else if opcode == 0xD {
        draw_spec(state, x, y, n as int)
    } else if opcode == 0xE {
        if nn == 0x9E {
            Ok(skipped(state, key_held(keys, vx)))
        } else if nn == 0xA1 {
            Ok(skipped(state, !key_held(keys, vx)))
        } else {
            Err(FaultKind::UnknownOpcode)
        }
    } else {
        misc_spec(state, x, nn as int)
    }
}

/// Whether `after` and `result` are what executing `word` on `before` gives:
/// on success the next state, on a fault the fault and the state untouched.
pub open spec fn execution_of(
    before: State,
    word: u16,
    keys: Seq<bool>,
    random: u8,
    after: State,
    result: Result<(), Fault>,
) -> bool {
    match execute_spec(before, word, keys, random) {
        Ok(next) => result is Ok && after =~= next,
        Err(kind) => result == Err::<(), Fault>(Fault { kind, opcode: word, pc: before.pc })
            && after =~= before,
    }
}

/// Reads a register that exists.
fn register_value(machine: &Machine, x: u8) -> (value: u8)
    requires
        x < REGISTER_COUNT,
    ensures
        machine@.wf(),
        value == machine@.registers[x as int],
{
    match machine.register(x) {
        Ok(value) => value,
        Err(_) => unreached(),
    }
}

/// Writes a register that exists.
fn store_register(machine: &mut Machine, x: u8, value: u8)
    requires
        x < REGISTER_COUNT,
    ensures
        final(machine)@.wf(),
        final(machine)@ == with_register(old(machine)@, x as int, value),
{
    let _ = machine.set_register(x, value);
}

/// Moves the program counter past the current instruction, and past the next
/// one too if `skip` holds.
fn advance(machine: &mut Machine, skip: bool)
    ensures
        final(machine)@.wf(),
        final(machine)@ == skipped(old(machine)@, skip),
{
    let pc = machine.pc();
    let step: u32 = if skip {
        4
    } else {
        2
    };
    machine.set_pc(((pc as u32 + step) % 0x10000) as u16);
}

/// The fault of kind `kind` that the instruction `word` at `pc` has met.
fn fault(kind: FaultKind, word: u16, pc: u16) -> (fault: Fault)
    ensures
        fault == (Fault { kind, opcode: word, pc }),
{
    Fault { kind, opcode: word, pc }
}

/// Executes an instruction of family 0, 1, 2 or B: clear, return, jump, call.
fn execute_flow(
    machine: &mut Machine,
    instruction: Instruction,
    keys: &[bool; 16],
    random: u8,
) -> (result: Result<(), Fault>)
    requires
        opcode_of(instruction@) == 0x0 || opcode_of(instruction@) == 0x1 || opcode_of(
            instruction@,
        ) == 0x2 || opcode_of(instruction@) == 0xB,
    ensures
        final(machine)@.wf(),
        execution_of(old(machine)@, instruction@, keys@, random, final(machine)@, result),
{
    let word = instruction.word();
    let opcode = instruction.opcode();
    let pc = machine.pc();
    if opcode == 0x0 {
        if word == 0x00E0 {
            machine.clear_display();
            advance(machine, false);
            Ok(())
        } else if word == 0x00EE {
            match machine.pop_return() {
                Ok(address) => {
                    machine.set_pc(address);
                    Ok(())
                },
                Err(kind) => Err(fault(kind, word, pc)),
            }
        } else {
            Err(fault(FaultKind::UnknownOpcode, word, pc))
        }
    } else if opcode == 0x1 {
        machine.set_pc(instruction.nnn());
        Ok(())
    } else if opcode == 0x2 {
        let return_to = ((pc as u32 + 2) % 0x10000) as u16;
        match machine.push_return(return_to) {
            Ok(()) => {
                machine.set_pc(instruction.nnn());
                Ok(())
            },
            Err(kind) => Err(fault(kind, word, pc)),
        }
    } else {
        let base = register_value(machine, 0);
        machine.set_pc(instruction.nnn() + base as u16);
        Ok(())
    }
}

/// Executes an instruction of family 3, 4, 5, 9 or E: the conditional skips.
fn execute_skip(
    machine: &mut Machine,
    instruction: Instruction,
    keys: &[bool; 16],
    random: u8,
) -> (result: Result<(), Fault>)
    requires
        opcode_of(instruction@) == 0x3 || opcode_of(instruction@) == 0x4 || opcode_of(
            instruction@,
        ) == 0x5 || opcode_of(instruction@) == 0x9 || opcode_of(instruction@) == 0xE,
    ensures
        final(machine)@.wf(),
        execution_of(old(machine)@, instruction@, keys@, random, final(machine)@, result),
{
    let word = instruction.word();
    let opcode = instruction.opcode();
    let pc = machine.pc();
    let vx = register_value(machine, instruction.x());
    let vy = register_value(machine, instruction.y());
    let nn = instruction.nn();
    let n = instruction.n();
    if opcode == 0x3 {
        advance(machine, vx == nn);
        Ok(())
    } else if opcode == 0x4 {
        advance(machine, vx != nn);
        Ok(())
    } else if opcode == 0x5 {
        advance(machine, n == 0 && vx == vy);
        Ok(())
    } else if opcode == 0x9 {
        advance(machine, n == 0 && vx != vy);
        Ok(())
    } else {
        let held = (vx as usize) < KEY_COUNT && keys[vx as usize];
        if nn == 0x9E {
            advance(machine, held);
            Ok(())
        } else if nn == 0xA1 {
            advance(machine, !held);
            Ok(())
        } else {
            Err(fault(FaultKind::UnknownOpcode, word, pc))
        }
    }
}

/// Executes an instruction of family 6, 7, A or C: the loads of an immediate.
fn execute_load(
    machine: &mut Machine,
    instruction: Instruction,
    keys: &[bool; 16],
    random: u8,
) -> (result: Result<(), Fault>)
    requires
        opcode_of(instruction@) == 0x6 || opcode_of(instruction@) == 0x7 || opcode_of(
            instruction@,
        ) == 0xA || opcode_of(instruction@) == 0xC,
    ensures
        final(machine)@.wf(),
        execution_of(old(machine)@, instruction@, keys@, random, final(machine)@, result),
{
    let opcode = instruction.opcode();
    let x = instruction.x();
    let nn = instruction.nn();
    let vx = register_value(machine, x);
    advance(machine, false);
    if opcode == 0x6 {
        store_register(machine, x, nn);
    } else if opcode == 0x7 {
        store_register(machine, x, add_u8_with_overflow(&vx, &nn));
    } else if opcode == 0xA {
        machine.set_index(instruction.nnn());
    } else {
        store_register(machine, x, random & nn);
    }
    Ok(())
}

/// Executes an instruction of family 8: register-to-register arithmetic.
fn execute_alu(
    machine: &mut Machine,
    instruction: Instruction,
    keys: &[bool; 16],
    random: u8,
) -> (result: Result<(), Fault>)
    requires
        opcode_of(instruction@) == 0x8,
    ensures
        final(machine)@.wf(),
        execution_of(old(machine)@, instruction@, keys@, random, final(machine)@, result),
{
    let x = instruction.x();
    let n = instruction.n();
    let vx = register_value(machine, x);
    let vy = register_value(machine, instruction.y());
    advance(machine, false);
    if n == 0x0 {
        store_register(machine, x, vy);
    } else if n == 0x1 {
        store_register(machine, x, vx | vy);
    } else if n == 0x2 {
        store_register(machine, x, vx & vy);
    } else if n == 0x3 {
        store_register(machine, x, vx ^ vy);
    } else if n == 0x4 {
        let carry: u8 = if vx as u16 + vy as u16 > 255 {
            1
        } else {
            0
        };
        store_register(machine, x, add_u8_with_overflow(&vx, &vy));
        store_register(machine, FLAG_REGISTER, carry);
    } else if n == 0x5 {
        let (difference, no_borrow) = subtract(vx, vy);
        store_register(machine, x, difference);
        store_register(machine, FLAG_REGISTER, no_borrow);
    } else if n == 0x6 {
        store_register(machine, x, vx / 2);
        store_register(machine, FLAG_REGISTER, vx % 2);
    } else if n == 0x7 {
        let (difference, no_borrow) = subtract(vy, vx);
        store_register(machine, x, difference);
        store_register(machine, FLAG_REGISTER, no_borrow);
    } else if n == 0xE {
        store_register(machine, x, ((vx as u16 * 2) % 256) as u8);
        store_register(machine, FLAG_REGISTER, vx / 128);
    }
    Ok(())
}

/// `left - right` on bytes, wrapping, and 1 if nothing was borrowed or 0 if
/// something was.
fn subtract(left: u8, right: u8) -> (outcome: (u8, u8))
    ensures
        outcome.0 == (left - right) % 256,
        outcome.1 == if left >= right {
            1u8
        } else {
            0u8
        },
{
    if left >= right {
        (left - right, 1)
    } else {
        ((256 + left as u16 - right as u16) as u8, 0)
    }
}

/// Executes an instruction of family D: the sprite blit.
fn execute_draw(
    machine: &mut Machine,
    instruction: Instruction,
    keys: &[bool; 16],
    random: u8,
) -> (result: Result<(), Fault>)
    requires
        opcode_of(instruction@) == 0xD,
    ensures
        final(machine)@.wf(),
        execution_of(old(machine)@, instruction@, keys@, random, final(machine)@, result),
{
    let pc = machine.pc();
    let vx = register_value(machine, instruction.x());
    let vy = register_value(machine, instruction.y());
    match machine.draw_sprite(vx, vy, instruction.n()) {
        Ok(collision) => {
            advance(machine, false);
            store_register(
                machine,
                FLAG_REGISTER,
                if collision {
                    1
                } else {
                    0
                },
            );
            Ok(())
        },
        Err(kind) => Err(fault(kind, instruction.word(), pc)),
    }
}

/// Writes a byte at an address that exists.
fn store_byte(machine: &mut Machine, address: u16, value: u8)
    requires
        address < MEMORY_SIZE,
    ensures
        final(machine)@.wf(),
        final(machine)@ == (State {
            memory: old(machine)@.memory.update(address as int, value),
            ..old(machine)@
        }),
{
    let _ = machine.write_byte(address, value);
}

/// Reads a byte at an address that exists.
fn load_byte(machine: &Machine, address: u16) -> (value: u8)
    requires
        address < MEMORY_SIZE,
    ensures
        machine@.wf(),
        value == machine@.memory[address as int],
{
    match machine.read_byte(address) {
        Ok(value) => value,
        Err(_) => unreached(),
    }
}

/// Copies the first `count` registers to memory, starting at the index
/// pointer.
fn store_registers(machine: &mut Machine, count: u8)
    requires
        count <= REGISTER_COUNT,
        old(machine)@.index + count <= MEMORY_SIZE,
    ensures
        final(machine)@.wf(),
        final(machine)@ == (State {
            memory: overlay(
                old(machine)@.memory,
                old(machine)@.index as int,
                old(machine)@.registers.take(count as int),
            ),
            ..old(machine)@
        }),
{
    let index = machine.index();
    let mut r: u8 = 0;
    while r < count
        invariant
            r <= count <= REGISTER_COUNT,
            index == old(machine)@.index,
            index + count <= MEMORY_SIZE,
            machine@.wf(),
            old(machine)@.wf(),
            machine@ == (State {
                memory: overlay(
                    old(machine)@.memory,
                    index as int,
                    old(machine)@.registers.take(r as int),
                ),
                ..old(machine)@
            }),
        decreases count - r,
    {
        let value = register_value(machine, r);
        store_byte(machine, index + r as u16, value);
        r += 1;
    }
}

/// Reads the first `count` registers from memory, starting at the index
/// pointer.
fn load_registers(machine: &mut Machine, count: u8)
    requires
        count <= REGISTER_COUNT,
        old(machine)@.index + count <= MEMORY_SIZE,
    ensures
        final(machine)@.wf(),
        final(machine)@ == (State {
            registers: loaded_registers(
                old(machine)@.registers,
                old(machine)@.memory,
                old(machine)@.index as int,
                count as int,
            ),
            ..old(machine)@
        }),
{
    let index = machine.index();
    let mut r: u8 = 0;
    while r < count
        invariant
            r <= count <= REGISTER_COUNT,
            index == old(machine)@.index,
            index + count <= MEMORY_SIZE,
            machine@.wf(),
            old(machine)@.wf(),
            machine@ == (State {
                registers: loaded_registers(
                    old(machine)@.registers,
                    old(machine)@.memory,
                    index as int,
                    r as int,
                ),
                ..old(machine)@
            }),
        decreases count - r,
    {
        let value = load_byte(machine, index + r as u16);
        store_register(machine, r, value);
        r += 1;
    }
}

/// Writes the three decimal digits of `value` to memory, starting at the
/// index pointer.
fn store_decimal(machine: &mut Machine, value: u8)
    requires
        old(machine)@.index + 2 < MEMORY_SIZE,
    ensures
        final(machine)@.wf(),
        final(machine)@ == (State {
            memory: overlay(
                old(machine)@.memory,
                old(machine)@.index as int,
                decimal_digits(value),
            ),
            ..old(machine)@
        }),
{
    let index = machine.index();
    store_byte(machine, index, value / 100);
    store_byte(machine, index + 1, value / 10 % 10);
    store_byte(machine, index + 2, value % 10);
}

/// Executes an instruction of family F: timers, key wait, index arithmetic
/// and the block copies.
fn execute_misc(
    machine: &mut Machine,
    instruction: Instruction,
    keys: &[bool; 16],
    random: u8,
) -> (result: Result<(), Fault>)
    requires
        opcode_of(instruction@) == 0xF,
    ensures
        final(machine)@.wf(),
        execution_of(old(machine)@, instruction@, keys@, random, final(machine)@, result),
{
    let word = instruction.word();
    let pc = machine.pc();
    let x = instruction.x();
    let nn = instruction.nn();
    let vx = register_value(machine, x);
    let index = machine.index();
    if nn == 0x07 {
        let timer = machine.delay_timer();
        store_register(machine, x, timer);
    } else if nn == 0x0A {
        let _ = machine.wait_for_key(x);
    } else if nn == 0x15 {
        machine.set_delay_timer(vx);
    } else if nn == 0x18 {
        machine.set_sound_timer(vx);
    } else if nn == 0x1E {
        machine.set_index(((index as u32 + vx as u32) % 0x10000) as u16);
    } else if nn == 0x29 {
        machine.set_index(FONT_BASE + GLYPH_BYTES * vx as u16);
    } else if nn == 0x33 {
        if index as usize + 2 >= MEMORY_SIZE {
            return Err(fault(FaultKind::AddressOutOfRange, word, pc));
        }
        store_decimal(machine, vx);
    } else if nn == 0x55 {
        if index as usize + x as usize >= MEMORY_SIZE {
            return Err(fault(FaultKind::AddressOutOfRange, word, pc));
        }
        store_registers(machine, x + 1);
    } else if nn == 0x65 {
        if index as usize + x as usize >= MEMORY_SIZE {
            return Err(fault(FaultKind::AddressOutOfRange, word, pc));
        }
        load_registers(machine, x + 1);
    } else {
        return Err(fault(FaultKind::UnknownOpcode, word, pc));
    }
    advance(machine, false);
    Ok(())
}

/// Executes one decoded instruction: applies its effect to the machine, or
/// reports the fatal condition it meets and leaves the machine untouched.
///
/// `keys` tells for each key code whether the key is held. `random` is the
/// byte that a `CXNN` instruction uses; no other instruction looks at it.
/// The key-wait latch is not looked at here: [`step`] does that, before it
/// fetches.
pub fn execute(
    machine: &mut Machine,
    instruction: Instruction,
    keys: &[bool; 16],
    random: u8,
) -> (result: Result<(), Fault>)
    ensures
        final(machine)@.wf(),
        execution_of(old(machine)@, instruction@, keys@, random, final(machine)@, result),
{
    let opcode = instruction.opcode();
    if opcode == 0x0 || opcode == 0x1 || opcode == 0x2 || opcode == 0xB {
        execute_flow(machine, instruction, keys, random)
    } else if opcode == 0x3 || opcode == 0x4 || opcode == 0x5 || opcode == 0x9 || opcode == 0xE {
        execute_skip(machine, instruction, keys, random)
    } else if opcode == 0x6 || opcode == 0x7 || opcode == 0xA || opcode == 0xC {
        execute_load(machine, instruction, keys, random)
    } else if opcode == 0x8 {
        execute_alu(machine, instruction, keys, random)
    } else if opcode == 0xD {
        execute_draw(machine, instruction, keys, random)
    } else {
        execute_misc(machine, instruction, keys, random)
    }
}

/// The instruction word at the program counter, or the fault of a program
/// counter whose two bytes do not both lie in memory.
pub open spec fn fetch_spec(state: State) -> Result<u16, Fault> {
    if state.pc + 1 < MEMORY_SIZE {
        Ok(word_of(state.memory[state.pc as int], state.memory[state.pc + 1]))
    } else {
        Err(Fault { kind: FaultKind::AddressOutOfRange, opcode: 0, pc: state.pc })
    }
}

/// What fetching and executing one instruction does to `state`.
#[verifier::opaque]
pub open spec fn step_spec(state: State, keys: Seq<bool>, random: u8) -> Result<State, Fault> {
    match fetch_spec(state) {
        Ok(word) => match execute_spec(state, word, keys, random) {
            Ok(next) => Ok(next),
            Err(kind) => Err(Fault { kind, opcode: word, pc: state.pc }),
        },
        Err(fault) => Err(fault),
    }
}

/// Whether the instruction that `state` is about to fetch uses a random
/// byte.
pub open spec fn draws_random(state: State) -> bool {
    fetch_spec(state) matches Ok(word) && opcode_of(word) == 0xC
}

/// Whether `after` and `result` are what one step on `before` gives. While
/// the key-wait latch is pending nothing is fetched and nothing changes, and
/// the result is `Ok(false)`. Otherwise one instruction is fetched and
/// executed: `Ok(true)` if it retired, else its fault, with the state
/// untouched.
pub open spec fn step_of(
    before: State,
    keys: Seq<bool>,
    random: u8,
    after: State,
    result: Result<bool, Fault>,
) -> bool {
    if before.key_wait is Some {
        result == Ok::<bool, Fault>(false) && after =~= before
    } else {
        match step_spec(before, keys, random) {
            Ok(next) => result == Ok::<bool, Fault>(true) && after =~= next,
            Err(fault) => result == Err::<bool, Fault>(fault) && after =~= before,
        }
    }
}

/// Only a `CXNN` instruction looks at the random byte.
pub proof fn lemma_random_byte_unused(state: State, keys: Seq<bool>, first: u8, second: u8)
    requires
        !draws_random(state),
    ensures
        step_spec(state, keys, first) == step_spec(state, keys, second),
{
    reveal(step_spec);
}

/// Reads the instruction at the program counter.
pub fn fetch(machine: &Machine) -> (fetched: Result<Instruction, Fault>)
    ensures
        machine@.wf(),
        match fetch_spec(machine@) {
            Ok(word) => fetched matches Ok(instruction) && instruction@ == word,
            Err(fault) => fetched == Err::<Instruction, Fault>(fault),
        },
{
    let pc = machine.pc();
    if pc as usize + 1 < MEMORY_SIZE {
        let high = load_byte(machine, pc);
        let low = load_byte(machine, pc + 1);
        Ok(Instruction::from_bytes(high, low))
    } else {
        Err(fault(FaultKind::AddressOutOfRange, 0, pc))
    }
}

/// Draws a byte from `rand::random`, which asks the thread-local generator
/// of the `rand` crate. Nothing is claimed of the byte: any of the 256 values
/// may come back, and two calls may differ. The generator seeds itself from
/// the operating system when a thread first uses it, and panics if that
/// fails.
#[verifier::external_body]
fn random_byte() -> (byte: u8) {
    rand::random::<u8>()
}

/// Fetches and executes one instruction, with `random` for the random byte,
/// unless the key-wait latch is pending.
pub fn step_with(machine: &mut Machine, keys: &[bool; 16], random: u8) -> (result: Result<
    bool,
    Fault,
>)
    ensures
        final(machine)@.wf(),
        step_of(old(machine)@, keys@, random, final(machine)@, result),
{
    reveal(step_spec);
    if machine.awaited_register().is_some() {
        return Ok(false);
    }
    let instruction = match fetch(machine) {
        Ok(instruction) => instruction,
        Err(fault) => {
            return Err(fault);
        },
    };
    match execute(machine, instruction, keys, random) {
        Ok(()) => Ok(true),
        Err(fault) => Err(fault),
    }
}

/// Fetches and executes one instruction, unless the key-wait latch is
/// pending. A `CXNN` instruction gets its byte from the random generator, so
/// its outcome is that of [`step_with`] for some byte; any other outcome is
/// determined.
pub fn step(machine: &mut Machine, keys: &[bool; 16]) -> (result: Result<bool, Fault>)
    ensures
        final(machine)@.wf(),
        exists|random: u8| step_of(old(machine)@, keys@, random, final(machine)@, result),
        !draws_random(old(machine)@) ==> step_of(
            old(machine)@,
            keys@,
            0,
            final(machine)@,
            result,
        ),
{
    reveal(step_spec);
    if machine.awaited_register().is_some() {
        assert(step_of(old(machine)@, keys@, 0, machine@, Ok::<bool, Fault>(false)));
        return Ok(false);
    }
    let instruction = match fetch(machine) {
        Ok(instruction) => instruction,
        Err(fault) => {
            assert(step_of(old(machine)@, keys@, 0, machine@, Err::<bool, Fault>(fault)));
            return Err(fault);
        },
    };
    let random = if instruction.opcode() == 0xC {
        random_byte()
    } else {
        0
    };
    let result = match execute(machine, instruction, keys, random) {
        Ok(()) => Ok(true),
        Err(fault) => Err(fault),
    };
    assert(step_of(old(machine)@, keys@, random, machine@, result));
    result
}

} // verus!
