use chip8_core::display::EdgePolicy;
use chip8_core::fault::FaultKind;
use chip8_core::font::{font_table, FONT_BASE};
use chip8_core::machine::{CallStack, KeyLatch, Machine};

#[test]
fn new_machine_is_at_program_start() {
    let machine = Machine::new(EdgePolicy::Clip);
    assert_eq!(machine.pc(), 0x200);
    assert_eq!(machine.index(), 0);
    assert_eq!(machine.stack_depth(), 0);
    assert_eq!(machine.delay_timer(), 0);
    assert_eq!(machine.sound_timer(), 0);
    assert!(!machine.sound_on());
    assert_eq!(machine.awaited_register(), None);
    let mut x: u8 = 0;
    while x < 16 {
        assert_eq!(machine.register(x), Ok(0));
        x += 1;
    }
    assert!(machine.display().cells().iter().all(|cell| !*cell));
    assert_eq!(machine.display().policy(), EdgePolicy::Clip);
}

#[test]
fn new_machine_holds_the_font_and_nothing_else() {
    let machine = Machine::new(EdgePolicy::Wrap);
    let font: [u8; 80] = [
        0xF0, 0x90, 0x90, 0x90, 0xF0, 0x20, 0x60, 0x20, 0x20, 0x70, 0xF0, 0x10, 0xF0, 0x80, 0xF0,
        0xF0, 0x10, 0xF0, 0x10, 0xF0, 0x90, 0x90, 0xF0, 0x10, 0x10, 0xF0, 0x80, 0xF0, 0x10, 0xF0,
        0xF0, 0x80, 0xF0, 0x90, 0xF0, 0xF0, 0x10, 0x20, 0x40, 0x40, 0xF0, 0x90, 0xF0, 0x90, 0xF0,
        0xF0, 0x90, 0xF0, 0x10, 0xF0, 0xF0, 0x90, 0xF0, 0x90, 0x90, 0xE0, 0x90, 0xE0, 0x90, 0xE0,
        0xF0, 0x80, 0x80, 0x80, 0xF0, 0xE0, 0x90, 0x90, 0x90, 0xE0, 0xF0, 0x80, 0xF0, 0x80, 0xF0,
        0xF0, 0x80, 0xF0, 0x80, 0x80,
    ];
    assert_eq!(font_table(), font);
    assert_eq!(FONT_BASE, 0x50);
    let mut address: u16 = 0;
    while address < 4096 {
        let expected = if (0x50..0xA0).contains(&address) {
            font[(address - 0x50) as usize]
        } else {
            0
        };
        assert_eq!(machine.read_byte(address), Ok(expected));
        address += 1;
    }
}

#[test]
fn program_is_loaded_at_0x200() {
    let mut machine = Machine::new(EdgePolicy::Clip);
    assert_eq!(machine.load_program(&[0x00, 0xE0, 0x60, 0x05]), Ok(()));
    assert_eq!(machine.read_byte(0x1FF), Ok(0));
    assert_eq!(machine.read_byte(0x200), Ok(0x00));
    assert_eq!(machine.read_byte(0x201), Ok(0xE0));
    assert_eq!(machine.read_byte(0x202), Ok(0x60));
    assert_eq!(machine.read_byte(0x203), Ok(0x05));
    assert_eq!(machine.read_byte(0x204), Ok(0));
    assert_eq!(machine.read_byte(0x50), Ok(0xF0));
    assert_eq!(machine.pc(), 0x200);
}

#[test]
fn largest_program_fills_memory_to_the_end() {
    let mut machine = Machine::new(EdgePolicy::Clip);
    let image = vec![0xAB; 4096 - 0x200];
    assert_eq!(machine.load_program(&image), Ok(()));
    assert_eq!(machine.read_byte(0x200), Ok(0xAB));
    assert_eq!(machine.read_byte(0xFFF), Ok(0xAB));
    assert_eq!(machine.read_byte(0x1FF), Ok(0));
}

#[test]
fn program_that_does_not_fit_is_refused() {
    let mut machine = Machine::new(EdgePolicy::Clip);
    let image = vec![0xAB; 4096 - 0x200 + 1];
    assert_eq!(
        machine.load_program(&image),
        Err(FaultKind::ProgramTooLarge)
    );
    assert_eq!(machine.read_byte(0x200), Ok(0));
    assert_eq!(machine.read_byte(0xFFF), Ok(0));
}

#[test]
fn empty_program_loads() {
    let mut machine = Machine::new(EdgePolicy::Clip);
    assert_eq!(machine.load_program(&[]), Ok(()));
    assert_eq!(machine.read_byte(0x200), Ok(0));
}

#[test]
fn memory_access_is_bounds_checked() {
    let mut machine = Machine::new(EdgePolicy::Clip);
    assert_eq!(machine.write_byte(0xFFF, 7), Ok(()));
    assert_eq!(machine.read_byte(0xFFF), Ok(7));
    assert_eq!(
        machine.write_byte(0x1000, 7),
        Err(FaultKind::AddressOutOfRange)
    );
    assert_eq!(machine.read_byte(0x1000), Err(FaultKind::AddressOutOfRange));
    assert_eq!(machine.read_byte(0xFFFF), Err(FaultKind::AddressOutOfRange));
    assert_eq!(machine.write_byte(0, 1), Ok(()));
    assert_eq!(machine.read_byte(0), Ok(1));
}

#[test]
fn register_access_is_bounds_checked() {
    let mut machine = Machine::new(EdgePolicy::Clip);
    assert_eq!(machine.set_register(0xF, 9), Ok(()));
    assert_eq!(machine.register(0xF), Ok(9));
    assert_eq!(machine.register(0xE), Ok(0));
    assert_eq!(
        machine.set_register(16, 9),
        Err(FaultKind::RegisterOutOfRange)
    );
    assert_eq!(machine.register(16), Err(FaultKind::RegisterOutOfRange));
    assert_eq!(machine.register(255), Err(FaultKind::RegisterOutOfRange));
}

#[test]
fn index_takes_any_sixteen_bit_value() {
    let mut machine = Machine::new(EdgePolicy::Clip);
    machine.set_index(0xFFFF);
    assert_eq!(machine.index(), 0xFFFF);
    machine.set_pc(0x0ABC);
    assert_eq!(machine.pc(), 0x0ABC);
}

#[test]
fn stack_holds_sixteen_return_addresses() {
    let mut machine = Machine::new(EdgePolicy::Clip);
    assert_eq!(machine.pop_return(), Err(FaultKind::StackUnderflow));
    let mut depth: u16 = 0;
    while depth < 16 {
        assert_eq!(machine.push_return(0x300 + depth), Ok(()));
        depth += 1;
    }
    assert_eq!(machine.stack_depth(), 16);
    assert_eq!(machine.push_return(0x400), Err(FaultKind::StackOverflow));
    assert_eq!(machine.stack_depth(), 16);
    while depth > 0 {
        depth -= 1;
        assert_eq!(machine.pop_return(), Ok(0x300 + depth));
    }
    assert_eq!(machine.stack_depth(), 0);
    assert_eq!(machine.pop_return(), Err(FaultKind::StackUnderflow));
}

#[test]
fn call_stack_on_its_own() {
    let mut stack = CallStack::new();
    assert_eq!(stack.depth(), 0);
    assert_eq!(stack.pop(), Err(FaultKind::StackUnderflow));
    assert_eq!(stack.push(0x222), Ok(()));
    assert_eq!(stack.push(0x444), Ok(()));
    assert_eq!(stack.depth(), 2);
    assert_eq!(stack.pop(), Ok(0x444));
    assert_eq!(stack.pop(), Ok(0x222));
    assert_eq!(stack.depth(), 0);
}

#[test]
fn key_latch_on_its_own() {
    let mut latch = KeyLatch::new();
    assert_eq!(latch.pending(), None);
    assert_eq!(latch.arm(16), Err(FaultKind::RegisterOutOfRange));
    assert_eq!(latch.pending(), None);
    assert_eq!(latch.arm(15), Ok(()));
    assert_eq!(latch.pending(), Some(15));
    latch.clear();
    assert_eq!(latch.pending(), None);
}

#[test]
fn timers_count_down_to_zero_and_stay() {
    let mut machine = Machine::new(EdgePolicy::Clip);
    machine.set_delay_timer(2);
    machine.set_sound_timer(1);
    assert!(machine.sound_on());
    machine.tick_timers();
    assert_eq!((machine.delay_timer(), machine.sound_timer()), (1, 0));
    assert!(!machine.sound_on());
    machine.tick_timers();
    assert_eq!((machine.delay_timer(), machine.sound_timer()), (0, 0));
    machine.tick_timers();
    assert_eq!((machine.delay_timer(), machine.sound_timer()), (0, 0));
    machine.set_delay_timer(255);
    machine.tick_timers();
    assert_eq!(machine.delay_timer(), 254);
}

#[test]
fn display_cells_are_bounds_checked() {
    let machine = Machine::new(EdgePolicy::Clip);
    assert_eq!(machine.pixel(63, 31), Ok(false));
    assert_eq!(machine.pixel(64, 31), Err(FaultKind::CellOutOfRange));
    assert_eq!(machine.pixel(63, 32), Err(FaultKind::CellOutOfRange));
}

#[test]
fn sprite_is_read_from_the_index_pointer() {
    let mut machine = Machine::new(EdgePolicy::Clip);
    machine.set_index(0x50);
    assert_eq!(machine.draw_sprite(0, 0, 5), Ok(false));
    assert_eq!(machine.pixel(0, 0), Ok(true));
    assert_eq!(machine.pixel(3, 0), Ok(true));
    assert_eq!(machine.pixel(4, 0), Ok(false));
    assert_eq!(machine.pixel(1, 1), Ok(false));
    assert_eq!(machine.pixel(0, 4), Ok(true));
    assert_eq!(machine.draw_sprite(0, 0, 5), Ok(true));
    assert!(machine.display().cells().iter().all(|cell| !*cell));
    machine.clear_display();
    assert!(machine.display().cells().iter().all(|cell| !*cell));
}

#[test]
fn sprite_past_the_end_of_memory_is_a_fault() {
    let mut machine = Machine::new(EdgePolicy::Clip);
    machine.write_byte(0xFFF, 0xFF).unwrap();
    machine.set_index(0xFFF);
    assert_eq!(machine.draw_sprite(0, 0, 1), Ok(false));
    assert_eq!(
        machine.draw_sprite(0, 8, 2),
        Err(FaultKind::AddressOutOfRange)
    );
    assert_eq!(machine.pixel(0, 8), Ok(false));
    machine.set_index(0x1000);
    assert_eq!(machine.draw_sprite(0, 0, 0), Ok(false));
    assert_eq!(
        machine.draw_sprite(0, 0, 1),
        Err(FaultKind::AddressOutOfRange)
    );
}

#[test]
fn key_release_goes_to_the_waiting_register() {
    let mut machine = Machine::new(EdgePolicy::Clip);
    assert!(!machine.release_key(0x7));
    assert_eq!(machine.register(0x7), Ok(0));
    assert_eq!(machine.wait_for_key(16), Err(FaultKind::RegisterOutOfRange));
    assert_eq!(machine.awaited_register(), None);
    assert_eq!(machine.wait_for_key(3), Ok(()));
    assert_eq!(machine.awaited_register(), Some(3));
    assert!(machine.release_key(0xA));
    assert_eq!(machine.register(3), Ok(0xA));
    assert_eq!(machine.awaited_register(), None);
    assert!(!machine.release_key(0xB));
    assert_eq!(machine.register(3), Ok(0xA));
}

#[test]
fn display_cells_can_be_written_through_the_machine() {
    let mut machine = Machine::new(EdgePolicy::Clip);
    assert_eq!(machine.set_pixel(1, 2, true), Ok(()));
    assert_eq!(machine.pixel(1, 2), Ok(true));
    assert_eq!(machine.pixel(2, 1), Ok(false));
    assert_eq!(machine.set_pixel(64, 2, true), Err(FaultKind::CellOutOfRange));
    assert_eq!(machine.set_pixel(1, 32, true), Err(FaultKind::CellOutOfRange));
    machine.set_index(0x50);
    assert_eq!(machine.draw_sprite(1, 2, 1), Ok(true));
    assert_eq!(machine.pixel(1, 2), Ok(false));
    assert_eq!(machine.pixel(2, 2), Ok(true));
}
