use chip8::fault::Fault;
use chip8::machine::{Emulator, GLYPHS};

#[test]
fn init_places_the_glyphs_and_clears_the_rest() {
    let emulator = Emulator::init();
    assert_eq!(&emulator.memory[0..5], &[0xF0, 0x90, 0x90, 0x90, 0xF0]);
    assert_eq!(&emulator.memory[5..10], &[0x20, 0x60, 0x20, 0x20, 0x70]);
    assert_eq!(&emulator.memory[75..80], &[0xF0, 0x80, 0xF0, 0x80, 0x80]);
    assert_eq!(&emulator.memory[0..80], &GLYPHS[..]);
    assert!(emulator.memory[80..].iter().all(|byte| *byte == 0));
    assert_eq!(emulator.registers, [0u8; 16]);
    assert_eq!(emulator.index_register, 0);
    assert_eq!(emulator.program_counter, 0x200);
    assert!(emulator.bitmap.iter().all(|pixel| !*pixel));
    assert_eq!(emulator.delay_timer, 0);
    assert_eq!(emulator.sound_timer, 0);
    assert_eq!(emulator.stack, [0u16; 16]);
    assert_eq!(emulator.stack_pointer, 0);
    assert_eq!(emulator.keys, [false; 16]);
    assert!(!emulator.should_draw);
}

#[test]
fn clone_keeps_every_component() {
    let mut emulator = Emulator::init();
    emulator.registers[3] = 7;
    emulator.memory[0x300] = 9;
    emulator.bitmap[100] = true;
    emulator.delay_timer = 4;
    let copy = emulator.clone();
    assert_eq!(copy, emulator);
}

#[test]
fn set_bytes_copies_at_the_offset() {
    let mut emulator = Emulator::init();
    emulator.set_bytes(0x300, &[1, 2, 3]);
    assert_eq!(emulator.memory[0x2FF], 0);
    assert_eq!(&emulator.memory[0x300..0x303], &[1, 2, 3]);
    assert_eq!(emulator.memory[0x303], 0);
    emulator.set_bytes(4095, &[0xAA]);
    assert_eq!(emulator.memory[4095], 0xAA);
    emulator.set_bytes(4096, &[]);
    assert_eq!(emulator.memory[4095], 0xAA);
}

#[test]
fn load_file_copies_the_image_to_the_load_address() {
    let mut emulator = Emulator::init();
    let before = emulator.clone();
    assert_eq!(emulator.load_file(&[0x12, 0x34, 0x56]), Ok(()));
    assert_eq!(&emulator.memory[0x200..0x203], &[0x12, 0x34, 0x56]);
    assert_eq!(&emulator.memory[..0x200], &before.memory[..0x200]);
    assert!(emulator.memory[0x203..].iter().all(|byte| *byte == 0));
    assert_eq!(emulator.program_counter, 0x200);
    assert_eq!(emulator.registers, before.registers);
}

#[test]
fn load_file_accepts_an_empty_image() {
    let mut emulator = Emulator::init();
    let before = emulator.clone();
    assert_eq!(emulator.load_file(&[]), Ok(()));
    assert_eq!(emulator, before);
}

#[test]
fn load_file_accepts_an_image_that_fills_memory() {
    let mut emulator = Emulator::init();
    let image = vec![0xABu8; 3584];
    assert_eq!(emulator.load_file(&image), Ok(()));
    assert_eq!(emulator.memory[0x1FF], 0);
    assert!(emulator.memory[0x200..].iter().all(|byte| *byte == 0xAB));
}

#[test]
fn load_file_refuses_an_image_that_is_too_large() {
    let mut emulator = Emulator::init();
    let before = emulator.clone();
    let image = vec![0xABu8; 3585];
    assert_eq!(emulator.load_file(&image), Err(Fault::ImageTooLarge));
    assert_eq!(emulator, before);
}
