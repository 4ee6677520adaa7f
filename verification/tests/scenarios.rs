use chip8_core::display::EdgePolicy;
use chip8_core::engine::step;
use chip8_core::fault::{Fault, FaultKind};
use chip8_core::machine::Machine;
use chip8_core::scheduler::{FrameReport, Scheduler};

const RELEASED_KEYS: [bool; 16] = [false; 16];

fn machine_with(policy: EdgePolicy, program: &[u8]) -> Machine {
    let mut machine = Machine::new(policy);
    machine.load_program(program).unwrap();
    machine
}

fn lit_columns(machine: &Machine, row: u8) -> Vec<u8> {
    (0..64u8)
        .filter(|col| machine.pixel(*col, row) == Ok(true))
        .collect()
}

fn all_off(machine: &Machine) -> bool {
    machine.display().cells().iter().all(|cell| !*cell)
}

#[test]
fn three_instruction_program_after_three_ticks() {
    for budget in [3u32, 4, 10, 500] {
        let mut machine = machine_with(EdgePolicy::Clip, &[0x00, 0xE0, 0x60, 0x05, 0x70, 0x03]);
        let scheduler = Scheduler::new(budget).unwrap();
        let mut tick = 0;
        while tick < 3 {
            let _ = scheduler.tick(&mut machine, &RELEASED_KEYS);
            tick += 1;
        }
        assert!(all_off(&machine));
        assert_eq!(machine.register(0), Ok(0x08));
        assert_eq!(machine.pc(), 0x206);
    }
}

#[test]
fn three_instruction_program_stops_at_the_word_after_it() {
    let mut machine = machine_with(EdgePolicy::Clip, &[0x00, 0xE0, 0x60, 0x05, 0x70, 0x03]);
    let scheduler = Scheduler::new(3).unwrap();
    assert_eq!(
        scheduler.tick(&mut machine, &RELEASED_KEYS),
        Ok(FrameReport {
            retired: 3,
            sound_on: false,
            waiting: false
        })
    );
    let stop = Err(Fault {
        kind: FaultKind::UnknownOpcode,
        opcode: 0x0000,
        pc: 0x206,
    });
    assert_eq!(scheduler.tick(&mut machine, &RELEASED_KEYS), stop);
    assert_eq!(scheduler.tick(&mut machine, &RELEASED_KEYS), stop);
    assert_eq!(machine.register(0), Ok(0x08));
    assert_eq!(machine.pc(), 0x206);
}

#[test]
fn seventeen_nested_calls_overflow_on_the_seventeenth() {
    // 0x200: call 0x200
    let mut machine = machine_with(EdgePolicy::Clip, &[0x22, 0x00]);
    let mut call = 1;
    while call <= 16 {
        assert_eq!(step(&mut machine, &RELEASED_KEYS), Ok(true));
        assert_eq!(machine.stack_depth(), call);
        call += 1;
    }
    assert_eq!(
        step(&mut machine, &RELEASED_KEYS),
        Err(Fault {
            kind: FaultKind::StackOverflow,
            opcode: 0x2200,
            pc: 0x200
        })
    );
    assert_eq!(machine.stack_depth(), 16);
}

#[test]
fn seventeen_nested_calls_overflow_within_one_tick() {
    let mut machine = machine_with(EdgePolicy::Clip, &[0x22, 0x00]);
    assert_eq!(
        Scheduler::new(100).unwrap().tick(&mut machine, &RELEASED_KEYS),
        Err(Fault {
            kind: FaultKind::StackOverflow,
            opcode: 0x2200,
            pc: 0x200
        })
    );
    assert_eq!(machine.stack_depth(), 16);
    let mut depth = 16;
    while depth > 0 {
        assert_eq!(machine.pop_return(), Ok(0x202));
        depth -= 1;
    }
}

#[test]
fn sixteen_nested_calls_return_in_order() {
    // 0x200: call 0x204; 0x202: jump 0x202; 0x204: call 0x208; 0x206: return; ...
    let mut machine = machine_with(EdgePolicy::Clip, &[]);
    let mut depth: u16 = 0;
    while depth < 16 {
        let at = 0x300 + 4 * depth;
        let target = at + 4;
        machine.write_byte(at, 0x20 | (target >> 8) as u8).unwrap();
        machine.write_byte(at + 1, target as u8).unwrap();
        machine.write_byte(at + 2, 0x00).unwrap();
        machine.write_byte(at + 3, 0xEE).unwrap();
        depth += 1;
    }
    // innermost: return
    machine.write_byte(0x340, 0x00).unwrap();
    machine.write_byte(0x341, 0xEE).unwrap();
    machine.set_pc(0x300);
    let mut steps = 0;
    while steps < 16 {
        assert_eq!(step(&mut machine, &RELEASED_KEYS), Ok(true));
        steps += 1;
    }
    assert_eq!(machine.stack_depth(), 16);
    assert_eq!(machine.pc(), 0x340);
    while steps > 0 {
        assert_eq!(step(&mut machine, &RELEASED_KEYS), Ok(true));
        steps -= 1;
        assert_eq!(machine.stack_depth(), steps);
        assert_eq!(machine.pc(), 0x300 + 4 * steps as u16 + 2);
    }
}

#[test]
fn key_wait_suspends_until_a_key_is_released() {
    // wait for key into V3; V0 = 0x77; jump to self
    let mut machine = machine_with(EdgePolicy::Clip, &[0xF3, 0x0A, 0x60, 0x77, 0x12, 0x04]);
    let scheduler = Scheduler::new(8).unwrap();
    let first = scheduler.tick(&mut machine, &RELEASED_KEYS).unwrap();
    assert_eq!((first.retired, first.waiting), (1, true));
    let second = scheduler.tick(&mut machine, &RELEASED_KEYS).unwrap();
    assert_eq!((second.retired, second.waiting), (0, true));
    assert_eq!(machine.register(0), Ok(0));
    assert_eq!(machine.register(3), Ok(0));
    assert_eq!(machine.pc(), 0x202);
    assert!(machine.release_key(0xA));
    let third = scheduler.tick(&mut machine, &RELEASED_KEYS).unwrap();
    assert_eq!((third.retired, third.waiting), (8, false));
    assert_eq!(machine.register(3), Ok(0xA));
    assert_eq!(machine.register(0), Ok(0x77));
}

#[test]
fn clipped_sprite_at_column_sixty_stays_right_of_the_edge() {
    // index = 0x20A; V0 = 60; V1 = 0; draw 1 row; jump to self; sprite 0xFF
    let program = [
        0xA2, 0x0A, 0x60, 0x3C, 0x61, 0x00, 0xD0, 0x11, 0x12, 0x08, 0xFF,
    ];
    let mut machine = machine_with(EdgePolicy::Clip, &program);
    Scheduler::new(4)
        .unwrap()
        .tick(&mut machine, &RELEASED_KEYS)
        .unwrap();
    assert_eq!(lit_columns(&machine, 0), vec![60, 61, 62, 63]);
    assert_eq!(lit_columns(&machine, 1), vec![]);
    assert_eq!(lit_columns(&machine, 31), vec![]);
    assert_eq!(machine.register(0xF), Ok(0));
}

#[test]
fn wrapped_sprite_at_column_sixty_comes_back_on_the_left() {
    let program = [
        0xA2, 0x0A, 0x60, 0x3C, 0x61, 0x00, 0xD0, 0x11, 0x12, 0x08, 0xFF,
    ];
    let mut machine = machine_with(EdgePolicy::Wrap, &program);
    Scheduler::new(4)
        .unwrap()
        .tick(&mut machine, &RELEASED_KEYS)
        .unwrap();
    assert_eq!(lit_columns(&machine, 0), vec![0, 1, 2, 3, 60, 61, 62, 63]);
    assert_eq!(lit_columns(&machine, 1), vec![]);
    assert_eq!(machine.register(0xF), Ok(0));
}

#[test]
fn same_sprite_drawn_twice_collides_the_second_time() {
    for policy in [EdgePolicy::Clip, EdgePolicy::Wrap] {
        // index = glyph of V2 (= 0xB); V0 = 62; V1 = 30; draw 5 rows twice
        let program = [
            0x62, 0x0B, 0xF2, 0x29, 0x60, 0x3E, 0x61, 0x1E, 0xD0, 0x15, 0xD0, 0x15,
        ];
        let mut machine = machine_with(policy, &program);
        let mut steps = 0;
        while steps < 5 {
            assert_eq!(step(&mut machine, &RELEASED_KEYS), Ok(true));
            steps += 1;
        }
        assert_eq!(machine.register(0xF), Ok(0));
        assert!(!all_off(&machine));
        assert_eq!(step(&mut machine, &RELEASED_KEYS), Ok(true));
        assert_eq!(machine.register(0xF), Ok(1));
        assert!(all_off(&machine));
    }
}

#[test]
fn digits_of_a_register_are_drawn_from_the_font() {
    // V0 = 7; index = glyph; V1 = 0; draw 5 rows at (0, 0)
    let mut machine = machine_with(EdgePolicy::Clip, &[0x60, 0x07, 0xF0, 0x29, 0xD1, 0x15]);
    let mut steps = 0;
    while steps < 3 {
        assert_eq!(step(&mut machine, &RELEASED_KEYS), Ok(true));
        steps += 1;
    }
    assert_eq!(lit_columns(&machine, 0), vec![0, 1, 2, 3]);
    assert_eq!(lit_columns(&machine, 1), vec![3]);
    assert_eq!(lit_columns(&machine, 2), vec![2]);
    assert_eq!(lit_columns(&machine, 3), vec![1]);
    assert_eq!(lit_columns(&machine, 4), vec![1]);
    assert_eq!(lit_columns(&machine, 5), vec![]);
}
