use chip8::display::{DARK, FRAME_PIXELS, HEIGHT, LIT, WIDTH};
use chip8::engine::Progress;
use chip8::fault::Fault;
use chip8::instruction::Instruction;
use chip8::machine::Emulator;

/// The lit cells of a framebuffer, as `(x, y)` pairs in row order.
fn lit_cells(emulator: &Emulator) -> Vec<(usize, usize)> {
    (0..2048).filter(|cell| emulator.bitmap[*cell]).map(|cell| (cell % 64, cell / 64)).collect()
}

#[test]
fn drawing_the_glyph_of_zero_lights_its_bit_pattern() {
    let mut emulator = Emulator::init();
    emulator.registers[0xF] = 1;
    assert!(emulator.sprite_fits(0, 0, 5));
    emulator.draw(0, 0, 5);
    let expected = vec![
        (0, 0), (1, 0), (2, 0), (3, 0),
        (0, 1), (3, 1),
        (0, 2), (3, 2),
        (0, 3), (3, 3),
        (0, 4), (1, 4), (2, 4), (3, 4),
    ];
    assert_eq!(lit_cells(&emulator), expected);
    assert_eq!(emulator.registers[0xF], 0);
    assert!(emulator.should_draw);
    assert_eq!(emulator.index_register, 0);
}

#[test]
fn drawing_a_sprite_twice_clears_it_and_reports_the_collision() {
    let mut emulator = Emulator::init();
    emulator.draw(10, 7, 5);
    assert_eq!(emulator.registers[0xF], 0);
    assert_eq!(lit_cells(&emulator).len(), 14);
    emulator.draw(10, 7, 5);
    assert_eq!(emulator.registers[0xF], 1);
    assert_eq!(lit_cells(&emulator), vec![]);
}

#[test]
fn drawing_twice_restores_a_framebuffer_that_was_not_blank() {
    let mut emulator = Emulator::init();
    emulator.bitmap[0] = true;
    emulator.bitmap[130] = true;
    emulator.bitmap[2047] = true;
    let before = emulator.bitmap;
    emulator.index_register = 5 * 0xB;
    emulator.draw(0, 0, 5);
    assert_eq!(emulator.registers[0xF], 1);
    assert_ne!(emulator.bitmap, before);
    emulator.draw(0, 0, 5);
    assert_eq!(emulator.bitmap, before);
}

#[test]
fn drawing_an_empty_sprite_twice_reports_no_collision() {
    let mut emulator = Emulator::init();
    emulator.index_register = 0x300;
    emulator.draw(3, 3, 4);
    emulator.draw(3, 3, 4);
    assert_eq!(emulator.registers[0xF], 0);
    emulator.index_register = 0;
    emulator.draw(3, 3, 0);
    emulator.draw(3, 3, 0);
    assert_eq!(emulator.registers[0xF], 0);
    assert_eq!(lit_cells(&emulator), vec![]);
}

#[test]
fn overlapping_sprites_toggle_the_shared_cells() {
    let mut emulator = Emulator::init();
    emulator.set_bytes(0x300, &[0b1100_0000]);
    emulator.index_register = 0x300;
    emulator.draw(0, 0, 1);
    emulator.draw(1, 0, 1);
    assert_eq!(lit_cells(&emulator), vec![(0, 0), (2, 0)]);
    assert_eq!(emulator.registers[0xF], 1);
    emulator.draw(4, 0, 1);
    assert_eq!(lit_cells(&emulator), vec![(0, 0), (2, 0), (4, 0), (5, 0)]);
    assert_eq!(emulator.registers[0xF], 0);
}

#[test]
fn a_sprite_that_runs_past_the_right_edge_continues_on_the_next_row() {
    let mut emulator = Emulator::init();
    emulator.set_bytes(0x300, &[0xFF]);
    emulator.index_register = 0x300;
    assert!(emulator.sprite_fits(60, 2, 1));
    emulator.draw(60, 2, 1);
    assert_eq!(
        lit_cells(&emulator),
        vec![(60, 2), (61, 2), (62, 2), (63, 2), (0, 3), (1, 3), (2, 3), (3, 3)]
    );
}

#[test]
fn a_sprite_fits_as_long_as_its_set_pixels_lie_in_the_framebuffer() {
    let mut emulator = Emulator::init();
    emulator.set_bytes(0x300, &[0xF0, 0xFF, 0x00, 0x01]);
    emulator.index_register = 0x300;
    assert!(emulator.sprite_fits(60, 31, 1));
    assert!(emulator.sprite_fits(56, 31, 2) == false);
    assert!(emulator.sprite_fits(56, 30, 2));
    assert!(!emulator.sprite_fits(57, 30, 2));
    assert!(emulator.sprite_fits(255, 255, 0));
    emulator.index_register = 0x302;
    assert!(emulator.sprite_fits(255, 255, 1));
    assert!(emulator.sprite_fits(56, 30, 2));
    assert!(!emulator.sprite_fits(57, 30, 2));
    assert!(!emulator.sprite_fits(0, 32, 2));
    emulator.draw(60, 31, 1);
    assert_eq!(lit_cells(&emulator), vec![]);
}

#[test]
fn a_sprite_whose_rows_leave_memory_does_not_fit() {
    let mut emulator = Emulator::init();
    emulator.index_register = 4090;
    assert!(emulator.sprite_fits(0, 0, 6));
    assert!(!emulator.sprite_fits(0, 0, 7));
    emulator.index_register = 4096;
    assert!(emulator.sprite_fits(0, 0, 0));
    assert!(!emulator.sprite_fits(0, 0, 1));
    emulator.index_register = u16::MAX;
    assert!(emulator.sprite_fits(0, 0, 0));
    assert!(!emulator.sprite_fits(0, 0, 1));
    assert!(!emulator.sprite_fits(0, 0, usize::MAX));
}

#[test]
fn the_draw_instruction_draws_at_the_registers() {
    let mut emulator = Emulator::init();
    emulator.registers[1] = 8;
    emulator.registers[2] = 4;
    emulator.index_register = 5;
    emulator.delay_timer = 2;
    let outcome = emulator.execute(Instruction::Draw { x: 1, y: 2, height: 5 }, 0, &[]);
    assert_eq!(outcome, Ok(Progress::Completed));
    let expected = vec![
        (10, 4),
        (9, 5), (10, 5),
        (10, 6),
        (10, 7),
        (9, 8), (10, 8), (11, 8),
    ];
    assert_eq!(lit_cells(&emulator), expected);
    assert_eq!(emulator.registers[0xF], 0);
    assert_eq!(emulator.program_counter, 0x202);
    assert_eq!(emulator.delay_timer, 1);
    assert_eq!(emulator.index_register, 5);
    assert!(emulator.should_draw);
}

#[test]
fn the_draw_instruction_refuses_a_sprite_that_does_not_fit() {
    let mut emulator = Emulator::init();
    emulator.registers[1] = 62;
    emulator.registers[2] = 31;
    emulator.delay_timer = 2;
    emulator.memory[0x200] = 0xD1;
    emulator.memory[0x201] = 0x25;
    let before = emulator.clone();
    assert_eq!(emulator.emulate_cycle(&[]), Err(Fault::AddressOutOfRange));
    assert_eq!(emulator, before);
    emulator.registers[1] = 0;
    emulator.registers[2] = 0;
    emulator.index_register = 4093;
    let before = emulator.clone();
    assert_eq!(emulator.emulate_cycle(&[]), Err(Fault::AddressOutOfRange));
    assert_eq!(emulator, before);
}

#[test]
fn draw_graphics_scales_every_cell_to_a_square() {
    let mut emulator = Emulator::init();
    emulator.bitmap[0] = true;
    emulator.bitmap[63 + 31 * 64] = true;
    emulator.bitmap[5 + 2 * 64] = true;
    let frame = emulator.draw_graphics();
    assert_eq!(frame.len(), FRAME_PIXELS);
    assert_eq!(frame.len(), WIDTH * HEIGHT);
    for y in 0..HEIGHT {
        for x in 0..WIDTH {
            let lit = (x < 10 && y < 10)
                || (x >= 630 && y >= 310)
                || (50..60).contains(&x) && (20..30).contains(&y);
            assert_eq!(frame[y * WIDTH + x], if lit { LIT } else { DARK });
        }
    }
    assert_eq!(LIT, 0xffffff);
    assert_eq!(DARK, 0);
}

#[test]
fn present_hands_out_one_frame_per_draw() {
    let mut emulator = Emulator::init();
    assert_eq!(emulator.present(), None);
    emulator.draw(0, 0, 5);
    let before = emulator.clone();
    let frame = emulator.present();
    assert_eq!(frame, Some(before.draw_graphics()));
    assert!(!emulator.should_draw);
    assert_eq!(emulator.bitmap, before.bitmap);
    assert_eq!(emulator.registers, before.registers);
    assert_eq!(emulator.present(), None);
}
