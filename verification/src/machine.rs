//! The machine state: memory, registers, call stack, timers, display and the
//! key-wait latch, behind bounds-checked accessors.

use vstd::prelude::*;
use vstd::slice::*;
use crate::display::{
    blank, blit_collides, blit_pixels, Display, EdgePolicy, DISPLAY_CELLS, MAX_SPRITE_ROWS,
};
use crate::fault::FaultKind;
use crate::font::{font_glyphs, font_table, FONT_BASE, FONT_BYTES};

verus! {

/// Bytes of memory.
pub const MEMORY_SIZE: usize = 4096;

/// The address a program is loaded at, and where execution starts.
pub const PROGRAM_START: u16 = 0x200;

/// The longest program image that fits.
pub const PROGRAM_LIMIT: usize = 3584;

/// General registers, the flag register included.
pub const REGISTER_COUNT: usize = 16;

/// The index of the flag register.
pub const FLAG_REGISTER: u8 = 0xF;

/// Return addresses the call stack can hold.
pub const STACK_LIMIT: usize = 16;

/// The mathematical model of a machine: what the contracts speak of.
#[verifier::ext_equal]
pub struct State {
    /// The bytes of memory, by address.
    pub memory: Seq<u8>,
    /// The registers V0 to VF.
    pub registers: Seq<u8>,
    /// The index pointer.
    pub index: u16,
    /// The program counter.
    pub pc: u16,
    /// The return addresses, the most recent one last.
    pub stack: Seq<u16>,
    /// The delay timer.
    pub delay_timer: u8,
    /// The sound timer.
    pub sound_timer: u8,
    /// The display cells, row by row.
    pub pixels: Seq<bool>,
    /// The display's edge policy.
    pub policy: EdgePolicy,
    /// The register that waits for a key, while the key-wait latch is pending.
    pub key_wait: Option<u8>,
}

impl State {
    /// What holds of the state of every machine.
    pub open spec fn wf(self) -> bool {
        &&& self.memory.len() == MEMORY_SIZE
        &&& self.registers.len() == REGISTER_COUNT
        &&& self.stack.len() <= STACK_LIMIT
        &&& self.pixels.len() == DISPLAY_CELLS
        &&& (self.key_wait matches Some(target) ==> target < REGISTER_COUNT)
    }
}

/// `memory` with `bytes` written over it from address `base` on.
pub open spec fn overlay(memory: Seq<u8>, base: int, bytes: Seq<u8>) -> Seq<u8> {
    Seq::new(
        memory.len(),
        |a: int|
            if base <= a < base + bytes.len() {
                bytes[a - base]
            } else {
                memory[a]
            },
    )
}

/// The state of a new machine: everything zero but the font in memory and
/// the program counter, which is at the load address.
pub open spec fn initial_state(policy: EdgePolicy) -> State {
    State {
        memory: overlay(Seq::new(MEMORY_SIZE as nat, |a: int| 0u8), FONT_BASE as int, font_glyphs()),
        registers: Seq::new(REGISTER_COUNT as nat, |x: int| 0u8),
        index: 0,
        pc: PROGRAM_START,
        stack: Seq::empty(),
        delay_timer: 0,
        sound_timer: 0,
        pixels: blank(),
        policy,
        key_wait: None,
    }
}

/// The state after the key with code `key` was released: while the latch is
/// pending the code goes to the waiting register and the latch clears.
pub open spec fn after_release(state: State, key: u8) -> State {
    match state.key_wait {
        Some(target) => State {
            registers: state.registers.update(target as int, key),
            key_wait: None,
            ..state
        },
        None => state,
    }
}

/// A timer after one display frame.
pub open spec fn timer_after_frame(timer: u8) -> u8 {
    if timer > 0 {
        (timer - 1) as u8
    } else {
        0
    }
}

/// The call stack: at most sixteen return addresses.
#[derive(Clone, Copy, Debug)]
pub struct CallStack {
    slots: [u16; 16],
    depth: usize,
}

impl View for CallStack {
    type V = Seq<u16>;

    /// The return addresses, the most recent one last.
    closed spec fn view(&self) -> Seq<u16> {
        self.slots@.take(self.depth as int)
    }
}

impl CallStack {
    #[verifier::type_invariant]
    spec fn bounded(self) -> bool {
        self.depth <= STACK_LIMIT
    }

    /// An empty stack.
    pub fn new() -> (stack: CallStack)
        ensures
            stack@ == Seq::<u16>::empty(),
    {
        CallStack { slots: [0u16; 16], depth: 0 }
    }

    /// The number of return addresses on the stack.
    pub fn depth(&self) -> (depth: usize)
        ensures
            depth == self@.len(),
            depth <= STACK_LIMIT,
    {
        proof {
            use_type_invariant(self);
        }
        self.depth
    }

    /// Pushes a return address, unless the stack is full.
    pub fn push(&mut self, address: u16) -> (pushed: Result<(), FaultKind>)
        ensures
            old(self)@.len() < STACK_LIMIT ==> pushed is Ok && final(self)@ == old(self)@.push(
                address,
            ),
            old(self)@.len() >= STACK_LIMIT ==> pushed == Err::<(), FaultKind>(
                FaultKind::StackOverflow,
            ) && final(self)@ == old(self)@,
    {
        proof {
            use_type_invariant(&*self);
        }
        if self.depth < STACK_LIMIT {
            self.slots[self.depth] = address;
            self.depth = self.depth + 1;
            assert(self@ =~= old(self)@.push(address));
            Ok(())
        } else {
            Err(FaultKind::StackOverflow)
        }
    }

    /// Pops the most recent return address, unless the stack is empty.
    pub fn pop(&mut self) -> (popped: Result<u16, FaultKind>)
        ensures
            old(self)@.len() > 0 ==> popped == Ok::<u16, FaultKind>(old(self)@.last())
                && final(self)@ == old(self)@.drop_last(),
            old(self)@.len() == 0 ==> popped == Err::<u16, FaultKind>(FaultKind::StackUnderflow)
                && final(self)@ == old(self)@,
    {
        proof {
            use_type_invariant(&*self);
        }
        if self.depth > 0 {
            self.depth = self.depth - 1;
            assert(self@ =~= old(self)@.drop_last());
            Ok(self.slots[self.depth])
        } else {
            Err(FaultKind::StackUnderflow)
        }
    }
}

/// The key-wait latch: either idle, or pending with the register that the
/// next released key goes to.
#[derive(Clone, Copy, Debug)]
pub struct KeyLatch {
    target: Option<u8>,
}

impl View for KeyLatch {
    type V = Option<u8>;

    /// The waiting register, while the latch is pending.
    closed spec fn view(&self) -> Option<u8> {
        self.target
    }
}

impl KeyLatch {
    #[verifier::type_invariant]
    spec fn names_a_register(self) -> bool {
        self.target matches Some(target) ==> target < REGISTER_COUNT
    }

    /// An idle latch.
    pub fn new() -> (latch: KeyLatch)
        ensures
            latch@ == None::<u8>,
    {
        KeyLatch { target: None }
    }

    /// The waiting register, while the latch is pending.
    pub fn pending(&self) -> (target: Option<u8>)
        ensures
            target == self@,
            target matches Some(register) ==> register < REGISTER_COUNT,
    {
        proof {
            use_type_invariant(self);
        }
        self.target
    }

    /// Sets the latch pending for `register`, unless there is no such
    /// register.
    pub fn arm(&mut self, register: u8) -> (armed: Result<(), FaultKind>)
        ensures
            register < REGISTER_COUNT ==> armed is Ok && final(self)@ == Some(register),
            register >= REGISTER_COUNT ==> armed == Err::<(), FaultKind>(
                FaultKind::RegisterOutOfRange,
            ) && final(self)@ == old(self)@,
    {
        proof {
            use_type_invariant(&*self);
        }
        if (register as usize) < REGISTER_COUNT {
            self.target = Some(register);
            Ok(())
        } else {
            Err(FaultKind::RegisterOutOfRange)
        }
    }

    /// Clears the latch.
    pub fn clear(&mut self)
        ensures
            final(self)@ == None::<u8>,
    {
        proof {
            use_type_invariant(&*self);
        }
        self.target = None;
    }
}

/// The state of one machine.
#[derive(Clone, Debug)]
pub struct Machine {
    memory: [u8; 4096],
    registers: [u8; 16],
    index: u16,
    pc: u16,
    stack: CallStack,
    delay_timer: u8,
    sound_timer: u8,
    display: Display,
    latch: KeyLatch,
}

impl View for Machine {
    type V = State;

    closed spec fn view(&self) -> State {
        State {
            memory: self.memory@,
            registers: self.registers@,
            index: self.index,
            pc: self.pc,
            stack: self.stack@,
            delay_timer: self.delay_timer,
            sound_timer: self.sound_timer,
            pixels: self.display@,
            policy: self.display.edge_policy(),
            key_wait: self.latch@,
        }
    }
}

impl Machine {
    /// Brings the invariants of the stack and the latch into view: the state
    /// of a machine is always well formed.
    fn note_well_formed(&self)
        ensures
            self@.wf(),
    {
        proof {
            use_type_invariant(&self.stack);
            use_type_invariant(&self.latch);
            self.display.lemma_cell_count();
        }
    }

    /// A machine at program start: memory zero but for the font, registers
    /// and timers zero, the stack empty, the display blank, the latch idle and
    /// the program counter at the load address.
    pub fn new(policy: EdgePolicy) -> (machine: Machine)
        ensures
            machine@ == initial_state(policy),
            machine@.wf(),
    {
        let table = font_table();
        let mut memory: [u8; 4096] = [0u8; 4096];
        let ghost zeroed = memory@;
        let mut k: usize = 0;
        while k < FONT_BYTES
            invariant
                k <= FONT_BYTES,
                table@ == font_glyphs(),
                zeroed.len() == MEMORY_SIZE,
                memory@ == overlay(zeroed, FONT_BASE as int, font_glyphs().take(k as int)),
            decreases FONT_BYTES - k,
        {
            memory[FONT_BASE as usize + k] = table[k];
            k += 1;
        }
        assert(font_glyphs().take(FONT_BYTES as int) == font_glyphs());
        assert(zeroed == Seq::new(MEMORY_SIZE as nat, |a: int| 0u8));
        let machine = Machine {
            memory,
            registers: [0u8; 16],
            index: 0,
            pc: PROGRAM_START,
            stack: CallStack::new(),
            delay_timer: 0,
            sound_timer: 0,
            display: Display::new(policy),
            latch: KeyLatch::new(),
        };
        machine.note_well_formed();
        assert(machine@.registers == Seq::new(REGISTER_COUNT as nat, |x: int| 0u8));
        machine
    }

    /// Copies a program image into memory from the load address on. An image
    /// longer than the memory above the load address is refused, and nothing
    /// is written.
    pub fn load_program(&mut self, image: &[u8]) -> (loaded: Result<(), FaultKind>)
        ensures
            final(self)@.wf(),
            image@.len() <= PROGRAM_LIMIT ==> loaded is Ok && final(self)@ == (State {
                memory: overlay(old(self)@.memory, PROGRAM_START as int, image@),
                ..old(self)@
            }),
            image@.len() > PROGRAM_LIMIT ==> loaded == Err::<(), FaultKind>(
                FaultKind::ProgramTooLarge,
            ) && final(self)@ == old(self)@,
    {
        self.note_well_formed();
        if image.len() > PROGRAM_LIMIT {
            return Err(FaultKind::ProgramTooLarge);
        }
        let mut k: usize = 0;
        while k < image.len()
            invariant
                k <= image@.len() <= PROGRAM_LIMIT,
                self.memory@ == overlay(
                    old(self).memory@,
                    PROGRAM_START as int,
                    image@.take(k as int),
                ),
                self.registers == old(self).registers,
                self.index == old(self).index,
                self.pc == old(self).pc,
                self.stack == old(self).stack,
                self.delay_timer == old(self).delay_timer,
                self.sound_timer == old(self).sound_timer,
                self.display == old(self).display,
                self.latch == old(self).latch,
            decreases image@.len() - k,
        {
            self.memory[PROGRAM_START as usize + k] = image[k];
            k += 1;
        }
        assert(image@.take(k as int) == image@);
        self.note_well_formed();
        Ok(())
    }

    /// Reads the byte at an address.
    pub fn read_byte(&self, address: u16) -> (value: Result<u8, FaultKind>)
        ensures
            self@.wf(),
            address < MEMORY_SIZE ==> value == Ok::<u8, FaultKind>(self@.memory[address as int]),
            address >= MEMORY_SIZE ==> value == Err::<u8, FaultKind>(
                FaultKind::AddressOutOfRange,
            ),
    {
        self.note_well_formed();
        if (address as usize) < MEMORY_SIZE {
            Ok(self.memory[address as usize])
        } else {
            Err(FaultKind::AddressOutOfRange)
        }
    }

    /// Writes the byte at an address.
    pub fn write_byte(&mut self, address: u16, value: u8) -> (written: Result<(), FaultKind>)
        ensures
            final(self)@.wf(),
            address < MEMORY_SIZE ==> written is Ok && final(self)@ == (State {
                memory: old(self)@.memory.update(address as int, value),
                ..old(self)@
            }),
            address >= MEMORY_SIZE ==> written == Err::<(), FaultKind>(
                FaultKind::AddressOutOfRange,
            ) && final(self)@ == old(self)@,
    {
        self.note_well_formed();
        if (address as usize) < MEMORY_SIZE {
            self.memory[address as usize] = value;
            Ok(())
        } else {
            Err(FaultKind::AddressOutOfRange)
        }
    }

    /// Reads a register.
    pub fn register(&self, x: u8) -> (value: Result<u8, FaultKind>)
        ensures
            self@.wf(),
            x < REGISTER_COUNT ==> value == Ok::<u8, FaultKind>(self@.registers[x as int]),
            x >= REGISTER_COUNT ==> value == Err::<u8, FaultKind>(FaultKind::RegisterOutOfRange),
    {
        self.note_well_formed();
        if (x as usize) < REGISTER_COUNT {
            Ok(self.registers[x as usize])
        } else {
            Err(FaultKind::RegisterOutOfRange)
        }
    }

    /// Writes a register.
    pub fn set_register(&mut self, x: u8, value: u8) -> (written: Result<(), FaultKind>)
        ensures
            final(self)@.wf(),
            x < REGISTER_COUNT ==> written is Ok && final(self)@ == (State {
                registers: old(self)@.registers.update(x as int, value),
                ..old(self)@
            }),
            x >= REGISTER_COUNT ==> written == Err::<(), FaultKind>(
                FaultKind::RegisterOutOfRange,
            ) && final(self)@ == old(self)@,
    {
        self.note_well_formed();
        if (x as usize) < REGISTER_COUNT {
            self.registers[x as usize] = value;
            Ok(())
        } else {
            Err(FaultKind::RegisterOutOfRange)
        }
    }

    /// The index pointer.
    pub fn index(&self) -> (index: u16)
        ensures
            self@.wf(),
            index == self@.index,
    {
        self.note_well_formed();
        self.index
    }

    /// Sets the index pointer. Any 16-bit value is accepted: whether it is an
    /// address is decided when it is used as one.
    pub fn set_index(&mut self, index: u16)
        ensures
            final(self)@.wf(),
            final(self)@ == (State { index, ..old(self)@ }),
    {
        self.note_well_formed();
        self.index = index;
    }

    /// The program counter.
    pub fn pc(&self) -> (pc: u16)
        ensures
            self@.wf(),
            pc == self@.pc,
    {
        self.note_well_formed();
        self.pc
    }

    /// Sets the program counter.
    pub fn set_pc(&mut self, pc: u16)
        ensures
            final(self)@.wf(),
            final(self)@ == (State { pc, ..old(self)@ }),
    {
        self.note_well_formed();
        self.pc = pc;
    }

    /// The number of return addresses on the call stack.
    pub fn stack_depth(&self) -> (depth: usize)
        ensures
            self@.wf(),
            depth == self@.stack.len(),
    {
        self.note_well_formed();
        self.stack.depth()
    }

    /// Pushes a return address on the call stack, unless the stack is full.
    pub fn push_return(&mut self, address: u16) -> (pushed: Result<(), FaultKind>)
        ensures
            final(self)@.wf(),
            old(self)@.stack.len() < STACK_LIMIT ==> pushed is Ok && final(self)@ == (State {
                stack: old(self)@.stack.push(address),
                ..old(self)@
            }),
            old(self)@.stack.len() >= STACK_LIMIT ==> pushed == Err::<(), FaultKind>(
                FaultKind::StackOverflow,
            ) && final(self)@ == old(self)@,
    {
        let pushed = self.stack.push(address);
        self.note_well_formed();
        pushed
    }

    /// Pops the most recent return address, unless the stack is empty.
    pub fn pop_return(&mut self) -> (popped: Result<u16, FaultKind>)
        ensures
            final(self)@.wf(),
            old(self)@.stack.len() > 0 ==> popped == Ok::<u16, FaultKind>(old(self)@.stack.last())
                && final(self)@ == (State { stack: old(self)@.stack.drop_last(), ..old(self)@ }),
            old(self)@.stack.len() == 0 ==> popped == Err::<u16, FaultKind>(
                FaultKind::StackUnderflow,
            ) && final(self)@ == old(self)@,
    {
        let popped = self.stack.pop();
        self.note_well_formed();
        popped
    }

    /// The delay timer.
    pub fn delay_timer(&self) -> (timer: u8)
        ensures
            self@.wf(),
            timer == self@.delay_timer,
    {
        self.note_well_formed();
        self.delay_timer
    }

    /// Sets the delay timer.
    pub fn set_delay_timer(&mut self, timer: u8)
        ensures
            final(self)@.wf(),
            final(self)@ == (State { delay_timer: timer, ..old(self)@ }),
    {
        self.note_well_formed();
        self.delay_timer = timer;
    }

    /// The sound timer.
    pub fn sound_timer(&self) -> (timer: u8)
        ensures
            self@.wf(),
            timer == self@.sound_timer,
    {
        self.note_well_formed();
        self.sound_timer
    }

    /// Sets the sound timer.
    pub fn set_sound_timer(&mut self, timer: u8)
        ensures
            final(self)@.wf(),
            final(self)@ == (State { sound_timer: timer, ..old(self)@ }),
    {
        self.note_well_formed();
        self.sound_timer = timer;
    }

    /// Whether sound is on: it is while the sound timer is not zero.
    pub fn sound_on(&self) -> (on: bool)
        ensures
            self@.wf(),
            on == (self@.sound_timer > 0),
    {
        self.note_well_formed();
        self.sound_timer > 0
    }

    /// Counts one display frame on both timers: each goes down by one, and
    /// stays at zero once it is there.
    pub fn tick_timers(&mut self)
        ensures
            final(self)@.wf(),
            final(self)@ == (State {
                delay_timer: timer_after_frame(old(self)@.delay_timer),
                sound_timer: timer_after_frame(old(self)@.sound_timer),
                ..old(self)@
            }),
    {
        self.note_well_formed();
        if self.delay_timer > 0 {
            self.delay_timer = self.delay_timer - 1;
        }
        if self.sound_timer > 0 {
            self.sound_timer = self.sound_timer - 1;
        }
    }

    /// The display, to read or to present.
    pub fn display(&self) -> (display: &Display)
        ensures
            self@.wf(),
            display@ == self@.pixels,
            display.edge_policy() == self@.policy,
    {
        self.note_well_formed();
        &self.display
    }

    /// Reads the display cell in column `col` of row `row`.
    pub fn pixel(&self, col: u8, row: u8) -> (cell: Result<bool, FaultKind>)
        ensures
            self@.wf(),
            col < 64 && row < 32 ==> cell == Ok::<bool, FaultKind>(self@.pixels[row * 64 + col]),
            !(col < 64 && row < 32) ==> cell == Err::<bool, FaultKind>(FaultKind::CellOutOfRange),
    {
        self.note_well_formed();
        self.display.pixel(col, row)
    }

    /// Turns the display cell in column `col` of row `row` on or off.
    pub fn set_pixel(&mut self, col: u8, row: u8, on: bool) -> (written: Result<(), FaultKind>)
        ensures
            final(self)@.wf(),
            col < 64 && row < 32 ==> written is Ok && final(self)@ == (State {
                pixels: old(self)@.pixels.update(row * 64 + col, on),
                ..old(self)@
            }),
            !(col < 64 && row < 32) ==> written == Err::<(), FaultKind>(
                FaultKind::CellOutOfRange,
            ) && final(self)@ == old(self)@,
    {
        let written = self.display.set_pixel(col, row, on);
        self.note_well_formed();
        written
    }

    /// Turns every display cell off.
    pub fn clear_display(&mut self)
        ensures
            final(self)@.wf(),
            final(self)@ == (State { pixels: blank(), ..old(self)@ }),
    {
        self.display.clear();
        self.note_well_formed();
    }

    /// Draws the sprite whose `rows` bytes start at the index pointer, with
    /// its top left corner at column `x % 64` of row `y % 32`, and returns
    /// whether a cell that was on went off. If the sprite's bytes do not all
    /// lie in memory, nothing is drawn.
    pub fn draw_sprite(&mut self, x: u8, y: u8, rows: u8) -> (collision: Result<bool, FaultKind>)
        requires
            rows <= MAX_SPRITE_ROWS,
        ensures
            final(self)@.wf(),
            old(self)@.index + rows <= MEMORY_SIZE ==> collision == Ok::<bool, FaultKind>(
                blit_collides(
                    old(self)@.pixels,
                    old(self)@.policy,
                    x as int % 64,
                    y as int % 32,
                    old(self)@.memory.subrange(
                        old(self)@.index as int,
                        old(self)@.index + rows,
                    ),
                ),
            ) && final(self)@ == (State {
                pixels: blit_pixels(
                    old(self)@.pixels,
                    old(self)@.policy,
                    x as int % 64,
                    y as int % 32,
                    old(self)@.memory.subrange(
                        old(self)@.index as int,
                        old(self)@.index + rows,
                    ),
                ),
                ..old(self)@
            }),
            old(self)@.index + rows > MEMORY_SIZE ==> collision == Err::<bool, FaultKind>(
                FaultKind::AddressOutOfRange,
            ) && final(self)@ == old(self)@,
    {
        self.note_well_formed();
        let start = self.index as usize;
        let end = start + rows as usize;
        if end > MEMORY_SIZE {
            return Err(FaultKind::AddressOutOfRange);
        }
        let sprite = slice_subrange(self.memory.as_slice(), start, end);
        let collision = self.display.draw_sprite(x, y, sprite);
        self.note_well_formed();
        Ok(collision)
    }

    /// The register that waits for a key, while the key-wait latch is
    /// pending.
    pub fn awaited_register(&self) -> (target: Option<u8>)
        ensures
            self@.wf(),
            target == self@.key_wait,
    {
        self.note_well_formed();
        self.latch.pending()
    }

    /// Sets the key-wait latch pending for register `x`.
    pub fn wait_for_key(&mut self, x: u8) -> (armed: Result<(), FaultKind>)
        ensures
            final(self)@.wf(),
            x < REGISTER_COUNT ==> armed is Ok && final(self)@ == (State {
                key_wait: Some(x),
                ..old(self)@
            }),
            x >= REGISTER_COUNT ==> armed == Err::<(), FaultKind>(
                FaultKind::RegisterOutOfRange,
            ) && final(self)@ == old(self)@,
    {
        let armed = self.latch.arm(x);
        self.note_well_formed();
        armed
    }

    /// Reports that the key with code `key` was released. While the latch is
    /// pending the code goes to the waiting register and the latch clears;
    /// otherwise nothing changes. Returns whether the latch was pending.
    pub fn release_key(&mut self, key: u8) -> (taken: bool)
        requires
            key < 16,
        ensures
            final(self)@.wf(),
            final(self)@ == after_release(old(self)@, key),
            taken == old(self)@.key_wait is Some,
    {
        self.note_well_formed();
        match self.latch.pending() {
            Some(target) => {
                self.registers[target as usize] = key;
                self.latch.clear();
                self.note_well_formed();
                true
            },
            None => false,
        }
    }
}

} // verus!
