use chip8_core::display::{Display, EdgePolicy};
use chip8_core::fault::FaultKind;

fn lit_cells(display: &Display) -> Vec<(u8, u8)> {
    let mut lit = Vec::new();
    let mut row: u8 = 0;
    while row < 32 {
        let mut col: u8 = 0;
        while col < 64 {
            if display.pixel(col, row) == Ok(true) {
                lit.push((col, row));
            }
            col += 1;
        }
        row += 1;
    }
    lit
}

#[test]
fn new_display_is_blank() {
    let display = Display::new(EdgePolicy::Clip);
    assert_eq!(lit_cells(&display), vec![]);
    assert_eq!(display.policy(), EdgePolicy::Clip);
    assert_eq!(Display::new(EdgePolicy::Wrap).policy(), EdgePolicy::Wrap);
    assert!(display.cells().iter().all(|cell| !*cell));
}

#[test]
fn default_policy_clips() {
    assert_eq!(EdgePolicy::default(), EdgePolicy::Clip);
}

#[test]
fn pixel_outside_the_grid_is_a_fault() {
    let display = Display::new(EdgePolicy::Clip);
    assert_eq!(display.pixel(63, 31), Ok(false));
    assert_eq!(display.pixel(64, 0), Err(FaultKind::CellOutOfRange));
    assert_eq!(display.pixel(0, 32), Err(FaultKind::CellOutOfRange));
    assert_eq!(display.pixel(255, 255), Err(FaultKind::CellOutOfRange));
}

#[test]
fn sprite_rows_go_down_and_bits_go_right() {
    let mut display = Display::new(EdgePolicy::Clip);
    let collision = display.draw_sprite(2, 3, &[0b1010_0000, 0b0000_0001]);
    assert!(!collision);
    assert_eq!(lit_cells(&display), vec![(2, 3), (4, 3), (9, 4)]);
    assert!(display.cells()[3 * 64 + 2]);
    assert!(display.cells()[4 * 64 + 9]);
}

#[test]
fn origin_wraps_on_entry_under_both_policies() {
    let mut clipped = Display::new(EdgePolicy::Clip);
    clipped.draw_sprite(64 + 5, 32 + 7, &[0x80]);
    assert_eq!(lit_cells(&clipped), vec![(5, 7)]);
    let mut wrapped = Display::new(EdgePolicy::Wrap);
    wrapped.draw_sprite(255, 255, &[0x80]);
    assert_eq!(lit_cells(&wrapped), vec![(63, 31)]);
}

#[test]
fn clip_drops_the_pixels_past_the_right_edge() {
    let mut display = Display::new(EdgePolicy::Clip);
    let collision = display.draw_sprite(60, 0, &[0xFF]);
    assert!(!collision);
    assert_eq!(lit_cells(&display), vec![(60, 0), (61, 0), (62, 0), (63, 0)]);
    let mut col: u8 = 0;
    while col < 4 {
        assert_eq!(display.pixel(col, 0), Ok(false));
        col += 1;
    }
}

#[test]
fn wrap_carries_the_pixels_past_the_right_edge_over() {
    let mut display = Display::new(EdgePolicy::Wrap);
    let collision = display.draw_sprite(60, 0, &[0xFF]);
    assert!(!collision);
    assert_eq!(
        lit_cells(&display),
        vec![(0, 0), (1, 0), (2, 0), (3, 0), (60, 0), (61, 0), (62, 0), (63, 0)]
    );
}

#[test]
fn clip_drops_the_rows_past_the_bottom_edge() {
    let mut display = Display::new(EdgePolicy::Clip);
    display.draw_sprite(0, 30, &[0x80, 0x80, 0x80, 0x80]);
    assert_eq!(lit_cells(&display), vec![(0, 30), (0, 31)]);
}

#[test]
fn wrap_carries_the_rows_past_the_bottom_edge_over() {
    let mut display = Display::new(EdgePolicy::Wrap);
    display.draw_sprite(0, 30, &[0x80, 0x80, 0x80, 0x80]);
    assert_eq!(lit_cells(&display), vec![(0, 0), (0, 1), (0, 30), (0, 31)]);
}

#[test]
fn drawing_twice_collides_and_restores() {
    let mut display = Display::new(EdgePolicy::Clip);
    let sprite = [0xF0, 0x90, 0x90, 0x90, 0xF0];
    assert!(!display.draw_sprite(10, 10, &sprite));
    assert_eq!(lit_cells(&display).len(), 14);
    assert!(display.draw_sprite(10, 10, &sprite));
    assert_eq!(lit_cells(&display), vec![]);
}

#[test]
fn collision_needs_a_cell_that_goes_off() {
    let mut display = Display::new(EdgePolicy::Clip);
    assert!(!display.draw_sprite(0, 0, &[0b1100_0000]));
    assert!(!display.draw_sprite(0, 0, &[0b0011_0000]));
    assert!(display.draw_sprite(0, 0, &[0b0001_1000]));
    assert_eq!(lit_cells(&display), vec![(0, 0), (1, 0), (2, 0), (4, 0)]);
}

#[test]
fn sprite_clipped_away_draws_nothing_and_never_collides() {
    let mut display = Display::new(EdgePolicy::Clip);
    assert!(!display.draw_sprite(60, 0, &[0x0F]));
    assert!(!display.draw_sprite(60, 0, &[0x0F]));
    assert_eq!(lit_cells(&display), vec![]);
}

#[test]
fn empty_sprite_changes_nothing() {
    let mut display = Display::new(EdgePolicy::Wrap);
    display.draw_sprite(1, 1, &[0xFF]);
    assert!(!display.draw_sprite(1, 1, &[]));
    assert!(!display.draw_sprite(1, 1, &[0x00, 0x00]));
    assert_eq!(lit_cells(&display).len(), 8);
}

#[test]
fn tallest_sprite_is_fifteen_rows() {
    let mut display = Display::new(EdgePolicy::Clip);
    assert!(!display.draw_sprite(0, 0, &[0x80; 15]));
    assert_eq!(lit_cells(&display).len(), 15);
    assert_eq!(display.pixel(0, 14), Ok(true));
    assert_eq!(display.pixel(0, 15), Ok(false));
}

#[test]
fn clear_turns_every_cell_off() {
    let mut display = Display::new(EdgePolicy::Wrap);
    display.draw_sprite(5, 5, &[0xFF, 0xFF]);
    display.clear();
    assert_eq!(lit_cells(&display), vec![]);
    assert_eq!(display.policy(), EdgePolicy::Wrap);
    display.clear();
    assert_eq!(lit_cells(&display), vec![]);
}

#[test]
fn single_cells_can_be_written() {
    let mut display = Display::new(EdgePolicy::Clip);
    assert_eq!(display.set_pixel(63, 31, true), Ok(()));
    assert_eq!(display.set_pixel(5, 2, true), Ok(()));
    assert_eq!(lit_cells(&display), vec![(5, 2), (63, 31)]);
    assert!(display.cells()[2 * 64 + 5]);
    assert!(display.cells()[2047]);
    assert_eq!(display.set_pixel(5, 2, false), Ok(()));
    assert_eq!(lit_cells(&display), vec![(63, 31)]);
    assert_eq!(
        display.set_pixel(64, 0, true),
        Err(FaultKind::CellOutOfRange)
    );
    assert_eq!(
        display.set_pixel(0, 32, true),
        Err(FaultKind::CellOutOfRange)
    );
    assert_eq!(lit_cells(&display), vec![(63, 31)]);
}
