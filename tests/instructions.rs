use chip8::{Emulator, Fault, Opcode, Step, SCREEN_HEIGHT, SCREEN_WIDTH};

const TICK: u64 = 16_666_667;

fn machine(shift_y: bool, jump_x: bool, words: &[u16]) -> Emulator {
    let mut bytes = Vec::new();
    for w in words {
        bytes.push((w >> 8) as u8);
        bytes.push((w & 0xFF) as u8);
    }
    let mut emu = Emulator::new(shift_y, jump_x);
    emu.load_program(&bytes);
    emu
}

fn run(emu: &mut Emulator, steps: usize) {
    for _ in 0..steps {
        assert_eq!(emu.execute_with(0, 0), Ok(Step::Done));
    }
}

fn lit(emu: &Emulator) -> Vec<(usize, usize)> {
    let mut out = Vec::new();
    for r in 0..SCREEN_HEIGHT {
        for c in 0..SCREEN_WIDTH {
            if emu.screen()[r][c] {
                out.push((r, c));
            }
        }
    }
    out
}

#[test]
fn new_machine_starts_at_load_address() {
    let emu = Emulator::new(false, false);
    assert_eq!(emu.program_counter(), 0x200);
    assert_eq!(emu.index_register(), 0);
    assert_eq!(emu.delay_timer(), 0);
    assert_eq!(*emu.sound_timer(), 0);
    assert_eq!(emu.stack_depth(), 0);
    for r in 0..16 {
        assert_eq!(emu.register(r), 0);
    }
    assert!(lit(&emu).is_empty());
}

#[test]
fn set_then_add_zero_keeps_value() {
    let mut emu = machine(false, false, &[0x6A42, 0x7A00]);
    run(&mut emu, 2);
    assert_eq!(emu.register(0xA), 0x42);
}

#[test]
fn add_immediate_wraps_without_flag() {
    let mut emu = machine(false, false, &[0x6F05, 0x6AFF, 0x7A02]);
    run(&mut emu, 3);
    assert_eq!(emu.register(0xA), 0x01);
    assert_eq!(emu.register(0xF), 0x05);
}

#[test]
fn add_with_carry() {
    let mut emu = machine(false, false, &[0x60FF, 0x6101, 0x8014]);
    run(&mut emu, 3);
    assert_eq!(emu.register(0), 0x00);
    assert_eq!(emu.register(0xF), 1);
}

#[test]
fn add_without_carry_clears_flag() {
    let mut emu = machine(false, false, &[0x6F07, 0x6010, 0x6101, 0x8014]);
    run(&mut emu, 4);
    assert_eq!(emu.register(0), 0x11);
    assert_eq!(emu.register(0xF), 0);
}

#[test]
fn subtract_with_borrow() {
    let mut emu = machine(false, false, &[0x6001, 0x6102, 0x8015]);
    run(&mut emu, 3);
    assert_eq!(emu.register(0), 0xFF);
    assert_eq!(emu.register(0xF), 0);
}

#[test]
fn subtract_reversed_without_borrow() {
    let mut emu = machine(false, false, &[0x6001, 0x6103, 0x8017]);
    run(&mut emu, 3);
    assert_eq!(emu.register(0), 0x02);
    assert_eq!(emu.register(0xF), 1);
}

#[test]
fn shift_right_with_legacy_quirk() {
    let mut emu = machine(true, false, &[0x6000, 0x6103, 0x8016]);
    run(&mut emu, 3);
    assert_eq!(emu.register(0), 0x01);
    assert_eq!(emu.register(0xF), 1);
}

#[test]
fn shift_right_in_place_without_quirk() {
    let mut emu = machine(false, false, &[0x6006, 0x6103, 0x8016]);
    run(&mut emu, 3);
    assert_eq!(emu.register(0), 0x03);
    assert_eq!(emu.register(0xF), 0);
}

#[test]
fn shift_left_puts_bit_seven_in_flag() {
    let mut emu = machine(false, false, &[0x6081, 0x801E]);
    run(&mut emu, 2);
    assert_eq!(emu.register(0), 0x02);
    assert_eq!(emu.register(0xF), 1);
}

#[test]
fn bitwise_register_operations() {
    let mut emu = machine(
        false,
        false,
        &[0x6F09, 0x600C, 0x610A, 0x8011, 0x620C, 0x8212, 0x630C, 0x8313, 0x6400, 0x8410],
    );
    run(&mut emu, 10);
    assert_eq!(emu.register(0), 0x0E);
    assert_eq!(emu.register(2), 0x08);
    assert_eq!(emu.register(3), 0x06);
    assert_eq!(emu.register(4), 0x0A);
    assert_eq!(emu.register(0xF), 0x09);
}

#[test]
fn draw_twice_restores_screen() {
    // Glyph 0 of the font, drawn at (0, 0) twice.
    let mut emu = machine(false, false, &[0xA000, 0x6000, 0x6100, 0xD015, 0xD015]);
    run(&mut emu, 4);
    assert_eq!(emu.register(0xF), 0);
    let first = lit(&emu);
    assert_eq!(first.len(), 14);
    assert!(first.contains(&(0, 0)) && first.contains(&(0, 3)) && first.contains(&(1, 0)));
    assert!(!first.contains(&(1, 1)));
    run(&mut emu, 1);
    assert_eq!(emu.register(0xF), 1);
    assert!(lit(&emu).is_empty());
}

#[test]
fn draw_sets_redraw_flag_once() {
    let mut emu = machine(false, false, &[0xA000, 0xD000]);
    assert!(!emu.needs_redraw());
    run(&mut emu, 2);
    assert!(emu.needs_redraw());
    assert!(!emu.needs_redraw());
}

#[test]
fn draw_clips_at_right_edge() {
    // Glyph 0's top row is 0xF0: four pixels, of which two fit.
    let mut emu = machine(false, false, &[0xA000, 0x603E, 0x6100, 0xD011]);
    run(&mut emu, 4);
    assert_eq!(lit(&emu), vec![(0, 62), (0, 63)]);
}

#[test]
fn draw_clips_at_bottom_edge() {
    let mut emu = machine(false, false, &[0xA000, 0x6000, 0x611F, 0xD015]);
    run(&mut emu, 4);
    assert_eq!(lit(&emu), vec![(31, 0), (31, 1), (31, 2), (31, 3)]);
}

#[test]
fn draw_wraps_start_coordinates() {
    let mut emu = machine(false, false, &[0xA000, 0x6043, 0x6122, 0xD011]);
    run(&mut emu, 4);
    assert_eq!(lit(&emu), vec![(2, 3), (2, 4), (2, 5), (2, 6)]);
}

#[test]
fn clear_screen_turns_everything_off() {
    let mut emu = machine(false, false, &[0xA000, 0xD005, 0x00E0]);
    run(&mut emu, 2);
    assert!(!lit(&emu).is_empty());
    run(&mut emu, 1);
    assert!(lit(&emu).is_empty());
}

#[test]
fn call_then_return_resumes_after_call() {
    let mut words = vec![0u16; 0x81];
    words[0] = 0x2300;
    words[0x80] = 0x00EE;
    let mut emu = machine(false, false, &words);
    run(&mut emu, 1);
    assert_eq!(emu.program_counter(), 0x300);
    assert_eq!(emu.stack_depth(), 1);
    run(&mut emu, 1);
    assert_eq!(emu.program_counter(), 0x202);
    assert_eq!(emu.stack_depth(), 0);
}

#[test]
fn return_with_empty_stack_is_a_fault() {
    let mut emu = machine(false, false, &[0x00EE]);
    assert_eq!(emu.execute_with(0, 0), Err(Fault::StackUnderflow));
}

#[test]
fn unknown_instruction_is_reported_and_skipped() {
    let mut emu = machine(false, false, &[0x5121, 0x6005]);
    let r = emu.execute_with(0, 0);
    assert_eq!(r, Ok(Step::Unknown(Opcode::decode(0x5121))));
    assert_eq!(emu.program_counter(), 0x202);
    run(&mut emu, 1);
    assert_eq!(emu.register(0), 5);
}

#[test]
fn unknown_eight_and_f_subcodes() {
    let mut emu = machine(false, false, &[0x8128, 0xF1FF, 0x0123]);
    for _ in 0..3 {
        assert!(matches!(emu.execute_with(0, 0), Ok(Step::Unknown(_))));
    }
    assert_eq!(emu.program_counter(), 0x206);
}

#[test]
fn key_wait_stalls_then_takes_key() {
    let mut emu = machine(false, false, &[0xF30A]);
    for _ in 0..3 {
        run(&mut emu, 1);
        assert_eq!(emu.program_counter(), 0x200);
    }
    emu.keypad.key_down(7);
    run(&mut emu, 1);
    assert_eq!(emu.program_counter(), 0x202);
    assert_eq!(emu.register(3), 7);
}

#[test]
fn key_wait_takes_lowest_held_key() {
    let mut emu = machine(false, false, &[0xF50A]);
    emu.keypad.key_down(0xB);
    emu.keypad.key_down(0x4);
    run(&mut emu, 1);
    assert_eq!(emu.register(5), 4);
    assert_eq!(emu.register(4), 0);
}

#[test]
fn timer_decays_to_zero() {
    let mut words = vec![0x6005, 0xF015];
    words.extend([0x6100u16; 6]);
    let mut emu = machine(false, false, &words);
    run(&mut emu, 2);
    assert_eq!(emu.delay_timer(), 5);
    for k in 1..=6u64 {
        assert_eq!(emu.execute_with(k * TICK, 0), Ok(Step::Done));
        assert_eq!(emu.delay_timer(), 5u8.saturating_sub(k as u8));
    }
    assert_eq!(emu.delay_timer(), 0);
}

#[test]
fn timer_waits_a_sixtieth_of_a_second() {
    let mut emu = machine(false, false, &[0x6003, 0xF015, 0xF018, 0x6100, 0x6100]);
    run(&mut emu, 3);
    assert_eq!(emu.execute_with(TICK - 1, 0), Ok(Step::Done));
    assert_eq!(emu.delay_timer(), 3);
    assert_eq!(*emu.sound_timer(), 3);
    assert_eq!(emu.execute_with(TICK, 0), Ok(Step::Done));
    assert_eq!(emu.delay_timer(), 2);
    assert_eq!(*emu.sound_timer(), 2);
}

#[test]
fn delay_timer_read_into_register() {
    let mut emu = machine(false, false, &[0x6009, 0xF015, 0xF207]);
    run(&mut emu, 2);
    assert_eq!(emu.execute_with(TICK, 0), Ok(Step::Done));
    assert_eq!(emu.register(2), 8);
}

#[test]
fn add_to_index_wraps_and_sets_flag() {
    let mut emu = machine(false, false, &[0xAFFF, 0x6002, 0xF01E]);
    run(&mut emu, 3);
    assert_eq!(emu.index_register(), 0x001);
    assert_eq!(emu.register(0xF), 1);
}

#[test]
fn add_to_index_without_wrap_keeps_flag() {
    let mut emu = machine(false, false, &[0xA100, 0x6002, 0x6F07, 0xF01E]);
    run(&mut emu, 4);
    assert_eq!(emu.index_register(), 0x102);
    assert_eq!(emu.register(0xF), 7);
}

#[test]
fn offset_jump_uses_register_zero() {
    let mut emu = machine(false, false, &[0x6004, 0x6310, 0xB300]);
    run(&mut emu, 3);
    assert_eq!(emu.program_counter(), 0x304);
}

#[test]
fn offset_jump_with_quirk_uses_register_x() {
    let mut emu = machine(false, true, &[0x6004, 0x6310, 0xB300]);
    run(&mut emu, 3);
    assert_eq!(emu.program_counter(), 0x310);
}

#[test]
fn offset_jump_is_not_masked() {
    let mut emu = machine(false, false, &[0x60FF, 0xBFFF]);
    run(&mut emu, 2);
    assert_eq!(emu.program_counter(), 0x10FE);
}

#[test]
fn jump_sets_program_counter() {
    let mut emu = machine(false, false, &[0x1456]);
    run(&mut emu, 1);
    assert_eq!(emu.program_counter(), 0x456);
}

#[test]
fn random_byte_is_masked() {
    let mut emu = machine(false, false, &[0xC0F0]);
    assert_eq!(emu.execute_with(0, 0xAB), Ok(Step::Done));
    assert_eq!(emu.register(0), 0xA0);
}

#[test]
fn execute_with_zero_mask_gives_zero() {
    let mut emu = machine(false, false, &[0x6077, 0xC000, 0x6142]);
    for _ in 0..3 {
        assert_eq!(emu.execute(), Ok(Step::Done));
    }
    assert_eq!(emu.register(0), 0);
    assert_eq!(emu.register(1), 0x42);
}

#[test]
fn skip_family() {
    let mut emu = machine(
        false,
        false,
        &[0x6005, 0x3005, 0x0000, 0x4006, 0x0000, 0x6105, 0x5010, 0x0000, 0x9010, 0x6201],
    );
    run(&mut emu, 6);
    assert_eq!(emu.program_counter(), 0x212);
    run(&mut emu, 1);
    assert_eq!(emu.register(2), 1);
}

#[test]
fn skip_not_taken_moves_one_instruction() {
    let mut emu = machine(false, false, &[0x3001, 0x4000]);
    run(&mut emu, 2);
    assert_eq!(emu.program_counter(), 0x204);
}

#[test]
fn skip_on_key_state() {
    let mut emu = machine(false, false, &[0x6A03, 0xEA9E, 0x0000, 0xEAA1, 0x6101]);
    emu.keypad.key_down(3);
    run(&mut emu, 3);
    assert_eq!(emu.program_counter(), 0x208);
    emu.keypad.key_up(3);
    let mut emu2 = machine(false, false, &[0x6A03, 0xEA9E, 0x0000, 0x6101]);
    run(&mut emu2, 2);
    assert_eq!(emu2.program_counter(), 0x204);
}

#[test]
fn skip_on_key_past_fifteen_sees_no_key() {
    let mut emu = machine(false, false, &[0x6A20, 0xEAA1, 0x0000, 0xEA9E]);
    run(&mut emu, 3);
    assert_eq!(emu.program_counter(), 0x208);
}

#[test]
fn fetch_wraps_at_end_of_memory() {
    let mut words = vec![0u16; 0x700];
    words[0] = 0x1FFE;
    words[0x6FF] = 0x6A07;
    let mut emu = machine(false, false, &words);
    run(&mut emu, 2);
    assert_eq!(emu.register(0xA), 7);
    assert_eq!(emu.program_counter(), 0);
}

#[test]
fn set_index_register() {
    let mut emu = machine(false, false, &[0xA123]);
    run(&mut emu, 1);
    assert_eq!(emu.index_register(), 0x123);
}
