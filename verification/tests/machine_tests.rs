use chip8::architecture::{Chip8, LoadError, StepError};
use chip8::font::copy_chars;
use chip8::language::Register;

fn loaded(program: &[u8]) -> Chip8 {
    let mut chip = Chip8::new();
    chip.load_memory(&program.to_vec()).expect("program fits");
    chip
}

fn run_steps(chip: &mut Chip8, n: usize) {
    for _ in 0..n {
        chip.run_instr().expect("step succeeds");
    }
}

#[test]
fn initial_state() {
    let chip = Chip8::new();
    assert_eq!(chip.pc, 0x200);
    assert_eq!(chip.sp, 0);
    assert_eq!(chip.i, 0);
    assert!(chip.memory.iter().all(|&b| b == 0));
    assert!(chip.registers.iter().all(|&v| v == 0));
}

#[test]
fn load_rejects_oversized_image() {
    let mut chip = Chip8::new();
    let image = vec![0u8; 3585];
    assert_eq!(chip.load_memory(&image), Err(LoadError::TooLarge { len: 3585 }));
    let image = vec![7u8; 3584];
    assert!(chip.load_memory(&image).is_ok());
    assert_eq!(chip.memory[0x200], 7);
    assert_eq!(chip.memory[0xFFF], 7);
    assert_eq!(chip.memory[0x1FF], 0);
}

#[test]
fn counting_loop_reaches_five() {
    // Set V0 to 0, add 1, skip when it reaches 5, loop back, then spin.
    let mut chip = loaded(&[0x60, 0x00, 0x70, 0x01, 0x30, 0x05, 0x12, 0x02, 0x12, 0x08]);
    run_steps(&mut chip, 17);
    assert_eq!(chip.rv(Register::V0), 5);
    assert_eq!(chip.pc, 0x208);
    // The trailing jump spins in place.
    run_steps(&mut chip, 3);
    assert_eq!(chip.pc, 0x208);
}

#[test]
fn add_sets_carry() {
    let mut chip = loaded(&[0x60, 0xFF, 0x61, 0x01, 0x80, 0x14]);
    run_steps(&mut chip, 3);
    assert_eq!(chip.rv(Register::V0), 0x00);
    assert_eq!(chip.rv(Register::VF), 1);
    assert_eq!(chip.pc, 0x206);
}

#[test]
fn add_without_carry() {
    let mut chip = loaded(&[0x60, 0x03, 0x61, 0x04, 0x80, 0x14]);
    run_steps(&mut chip, 3);
    assert_eq!(chip.rv(Register::V0), 7);
    assert_eq!(chip.rv(Register::VF), 0);
}

#[test]
fn sub_with_borrow() {
    let mut chip = loaded(&[0x60, 0x01, 0x61, 0x02, 0x80, 0x15]);
    run_steps(&mut chip, 3);
    assert_eq!(chip.rv(Register::V0), 0xFF);
    assert_eq!(chip.rv(Register::VF), 0);
}

#[test]
fn sub_without_borrow() {
    let mut chip = loaded(&[0x60, 0x05, 0x61, 0x02, 0x80, 0x15]);
    run_steps(&mut chip, 3);
    assert_eq!(chip.rv(Register::V0), 3);
    assert_eq!(chip.rv(Register::VF), 1);
}

#[test]
fn subn_compares_the_other_way() {
    let mut chip = loaded(&[0x60, 0x05, 0x61, 0x02, 0x80, 0x17]);
    run_steps(&mut chip, 3);
    assert_eq!(chip.rv(Register::V0), 0xFD);
    assert_eq!(chip.rv(Register::VF), 0);
}

#[test]
fn shifts_eject_the_right_bits() {
    let mut chip = loaded(&[0x60, 0x05, 0x80, 0x16]);
    run_steps(&mut chip, 2);
    assert_eq!(chip.rv(Register::V0), 2);
    assert_eq!(chip.rv(Register::VF), 1);

    let mut chip = loaded(&[0x60, 0x81, 0x80, 0x1E]);
    run_steps(&mut chip, 2);
    assert_eq!(chip.rv(Register::V0), 0x02);
    assert_eq!(chip.rv(Register::VF), 1);
}

#[test]
fn bitwise_ops() {
    let mut chip = loaded(&[0x60, 0x0C, 0x61, 0x0A, 0x80, 0x11]);
    run_steps(&mut chip, 3);
    assert_eq!(chip.rv(Register::V0), 0x0E);
    let mut chip = loaded(&[0x60, 0x0C, 0x61, 0x0A, 0x80, 0x12]);
    run_steps(&mut chip, 3);
    assert_eq!(chip.rv(Register::V0), 0x08);
    let mut chip = loaded(&[0x60, 0x0C, 0x61, 0x0A, 0x80, 0x13]);
    run_steps(&mut chip, 3);
    assert_eq!(chip.rv(Register::V0), 0x06);
}

#[test]
fn draw_reports_collision_on_second_draw() {
    let mut chip = loaded(&[0xA3, 0x00, 0x60, 0x00, 0x61, 0x00, 0xD0, 0x11, 0xD0, 0x11]);
    chip.memory[0x300] = 0xFF;
    run_steps(&mut chip, 4);
    // First draw: a fresh framebuffer collides with nothing.
    assert_eq!(chip.rv(Register::VF), 0);
    assert!((0..8).all(|c| chip.screen.get(0, c)));
    run_steps(&mut chip, 1);
    // Second draw erases the row and reports the collision.
    assert_eq!(chip.rv(Register::VF), 1);
    assert!((0..8).all(|c| !chip.screen.get(0, c)));
}

#[test]
fn draw_clips_at_the_edges() {
    // Draw an all-set byte at column 60, row 31: only four pixels land.
    let mut chip = loaded(&[0xA3, 0x00, 0x60, 0x3C, 0x61, 0x1F, 0xD0, 0x12]);
    chip.memory[0x300] = 0xFF;
    chip.memory[0x301] = 0xFF;
    run_steps(&mut chip, 4);
    assert_eq!(chip.rv(Register::VF), 0);
    for c in 60..64 {
        assert!(chip.screen.get(31, c));
    }
    // Nothing wrapped to the start of the row or the top of the screen.
    for c in 0..60 {
        assert!(!chip.screen.get(31, c));
    }
    for c in 0..64 {
        assert!(!chip.screen.get(0, c));
    }
}

#[test]
fn draw_origin_wraps() {
    // Coordinates are taken modulo the screen size at the origin.
    let mut chip = loaded(&[0xA3, 0x00, 0x60, 0x40, 0x61, 0x20, 0xD0, 0x11]);
    chip.memory[0x300] = 0x80;
    run_steps(&mut chip, 4);
    assert!(chip.screen.get(0, 0));
}

#[test]
fn clear_blanks_the_screen() {
    let mut chip = loaded(&[0xA3, 0x00, 0xD0, 0x11, 0x00, 0xE0]);
    chip.memory[0x300] = 0xFF;
    run_steps(&mut chip, 3);
    assert!((0..8).all(|c| !chip.screen.get(0, c)));
}

#[test]
fn call_and_ret_balance() {
    let mut chip = loaded(&[0x22, 0x06, 0x00, 0xE0, 0x12, 0x04, 0x00, 0xEE]);
    chip.run_instr().unwrap();
    assert_eq!(chip.pc, 0x206);
    assert_eq!(chip.sp, 1);
    assert_eq!(chip.stack[0], 0x202);
    chip.run_instr().unwrap();
    assert_eq!(chip.pc, 0x202);
    assert_eq!(chip.sp, 0);
    chip.run_instr().unwrap();
    assert_eq!(chip.pc, 0x204);
    chip.run_instr().unwrap();
    assert_eq!(chip.pc, 0x204);
}

#[test]
fn ret_on_empty_stack_underflows() {
    let mut chip = loaded(&[0x00, 0xEE]);
    assert_eq!(chip.run_instr(), Err(StepError::StackUnderflow));
    // A failing step leaves the machine untouched.
    assert_eq!(chip.pc, 0x200);
    assert_eq!(chip.sp, 0);
}

#[test]
fn seventeenth_call_overflows() {
    let mut program: Vec<u8> = Vec::new();
    for k in 0..17u16 {
        let target = 0x202 + 2 * k;
        program.push((target / 256) as u8 | 0x20);
        program.push((target % 256) as u8);
    }
    let mut chip = loaded(&program);
    for _ in 0..16 {
        chip.run_instr().unwrap();
    }
    assert_eq!(chip.sp, 16);
    assert_eq!(chip.run_instr(), Err(StepError::StackOverflow));
    assert_eq!(chip.sp, 16);
}

#[test]
fn bcd_writes_decimal_digits() {
    let mut chip = loaded(&[0x60, 0x7B, 0xA3, 0x00, 0xF0, 0x33]);
    run_steps(&mut chip, 3);
    assert_eq!(chip.memory[0x300], 1);
    assert_eq!(chip.memory[0x301], 2);
    assert_eq!(chip.memory[0x302], 3);
}

#[test]
fn regdump_then_regload_restores_registers() {
    let mut chip = loaded(&[
        0x60, 0x05, 0x61, 0x06, 0x62, 0x07, 0xA3, 0x00, 0xF2, 0x55, 0x61, 0x00, 0xF2, 0x65,
    ]);
    run_steps(&mut chip, 5);
    assert_eq!(chip.memory[0x300], 5);
    assert_eq!(chip.memory[0x301], 6);
    assert_eq!(chip.memory[0x302], 7);
    run_steps(&mut chip, 1);
    assert_eq!(chip.rv(Register::V1), 0);
    run_steps(&mut chip, 1);
    assert_eq!(chip.rv(Register::V0), 5);
    assert_eq!(chip.rv(Register::V1), 6);
    assert_eq!(chip.rv(Register::V2), 7);
    assert_eq!(chip.i, 0x300);
}

#[test]
fn skips_take_the_long_step() {
    let mut chip = loaded(&[0x60, 0x05, 0x30, 0x05]);
    run_steps(&mut chip, 2);
    assert_eq!(chip.pc, 0x206);
    let mut chip = loaded(&[0x60, 0x05, 0x40, 0x05]);
    run_steps(&mut chip, 2);
    assert_eq!(chip.pc, 0x204);
    let mut chip = loaded(&[0x60, 0x05, 0x61, 0x05, 0x50, 0x10]);
    run_steps(&mut chip, 3);
    assert_eq!(chip.pc, 0x208);
    let mut chip = loaded(&[0x60, 0x05, 0x61, 0x05, 0x90, 0x10]);
    run_steps(&mut chip, 3);
    assert_eq!(chip.pc, 0x206);
}

#[test]
fn rand_applies_the_mask() {
    let mut chip = loaded(&[0xC0, 0x0F]);
    chip.run_instr_seeded(0xAB).unwrap();
    assert_eq!(chip.rv(Register::V0), 0x0B);
    let mut chip = loaded(&[0xC0, 0x0F]);
    chip.run_instr().unwrap();
    assert!(chip.rv(Register::V0) < 16);
}

#[test]
fn incr_i_wraps_to_twelve_bits() {
    let mut chip = loaded(&[0xAF, 0xFF, 0x60, 0x02, 0xF0, 0x1E]);
    run_steps(&mut chip, 3);
    assert_eq!(chip.i, 1);
}

#[test]
fn sprite_addr_points_at_glyph() {
    let mut chip = loaded(&[0x60, 0x0A, 0xF0, 0x29]);
    run_steps(&mut chip, 2);
    assert_eq!(chip.i, 50);
}

#[test]
fn jump_adds_v0() {
    let mut chip = loaded(&[0x60, 0x10, 0xB2, 0x10]);
    run_steps(&mut chip, 2);
    assert_eq!(chip.pc, 0x220);
}

#[test]
fn goto_outside_program_area_fails() {
    let mut chip = loaded(&[0x12, 0x01]);
    assert_eq!(chip.run_instr(), Err(StepError::MemoryRange));
    let mut chip = loaded(&[0x11, 0x00]);
    assert_eq!(chip.run_instr(), Err(StepError::MemoryRange));
    assert_eq!(chip.pc, 0x200);
}

#[test]
fn draw_past_memory_end_fails() {
    let mut chip = loaded(&[0xAF, 0xFF, 0xD0, 0x02]);
    chip.run_instr().unwrap();
    assert_eq!(chip.run_instr(), Err(StepError::MemoryRange));
}

#[test]
fn unimplemented_opcodes_are_bad_instructions() {
    for program in [[0xE0u8, 0x9E], [0xE0, 0xA1], [0xF0, 0x07], [0xF0, 0x0A], [0xF0, 0x15], [
        0xF0, 0x18,
    ]] {
        let mut chip = loaded(&program);
        assert_eq!(chip.run_instr(), Err(StepError::BadInstruction));
    }
}

#[test]
fn executing_data_is_a_bad_instruction() {
    let mut chip = loaded(&[0xFF, 0xFF]);
    assert_eq!(chip.run_instr(), Err(StepError::BadInstruction));
}

#[test]
fn incr_wraps_without_touching_vf() {
    let mut chip = loaded(&[0x60, 0xFF, 0x70, 0x02]);
    run_steps(&mut chip, 2);
    assert_eq!(chip.rv(Register::V0), 1);
    assert_eq!(chip.rv(Register::VF), 0);
}

#[test]
fn flag_register_as_destination_keeps_the_flag() {
    // ADD VF, V1 with a carry: the flag write lands last.
    let mut chip = loaded(&[0x6F, 0xFF, 0x61, 0x02, 0x8F, 0x14]);
    run_steps(&mut chip, 3);
    assert_eq!(chip.rv(Register::VF), 1);
}

#[test]
fn font_copies_into_place() {
    let mut m = vec![0u8; 100];
    copy_chars(&mut m, 10);
    assert_eq!(m[10], 0xF0);
    assert_eq!(m[10 + 5], 0x20);
    assert_eq!(m[10 + 5 * 15 + 4], 0x80);
    assert_eq!(m[0], 0);
    assert_eq!(m[9], 0);
    assert_eq!(m[90], 0);
}

#[test]
fn screen_renders_as_text() {
    let chip = Chip8::new();
    let text = chip.screen.to_string();
    let lines: Vec<&str> = text.lines().collect();
    assert_eq!(lines.len(), 32);
    assert!(lines.iter().all(|l| l.chars().count() == 64));
    assert!(lines.iter().all(|l| l.chars().all(|c| c == '.')));

    let mut chip = loaded(&[0xA3, 0x00, 0xD0, 0x11]);
    chip.memory[0x300] = 0xF0;
    run_steps(&mut chip, 2);
    let text = chip.screen.to_string();
    let first = text.lines().next().unwrap();
    assert!(first.starts_with("\u{2588}\u{2588}\u{2588}\u{2588}...."));
}

#[test]
fn memory_listing_line() {
    let chip = loaded(&[0x60, 0x01]);
    assert_eq!(chip.disasm_at(0x200).unwrap(), "0x6001 LD V0, 0x01");
    assert_eq!(chip.disasm_at(0x000).unwrap(), "0x0000 SYS 0x0000");
    assert!(chip.disasm_at(4095).is_none());
}

#[test]
fn stack_helpers_push_and_pop() {
    let mut chip = Chip8::new();
    chip.push_stack(0x234);
    assert_eq!(chip.sp, 1);
    assert_eq!(chip.stack[0], 0x234);
    assert_eq!(chip.pop_stack(), 0x234);
    assert_eq!(chip.sp, 0);
}

#[test]
fn pc_incr_moves_two_bytes() {
    let mut chip = Chip8::new();
    chip.pc_incr();
    assert_eq!(chip.pc, 0x202);
}

#[test]
fn read_instr_decodes_at_pc() {
    let chip = loaded(&[0x00, 0xE0]);
    assert_eq!(chip.read_instr(), chip8::language::Instr::Clear);
}

#[test]
fn glyphs_render_after_sprite_addr() {
    // With the font installed, Fx29 points I at the glyph for V0 and a
    // five-row draw paints it: digit 0 starts with its top bar set.
    let mut chip = loaded(&[0x60, 0x00, 0xF0, 0x29, 0x61, 0x00, 0x62, 0x00, 0xD1, 0x25]);
    copy_chars(&mut chip.memory, 0);
    run_steps(&mut chip, 5);
    assert_eq!(chip.i, 0);
    for c in 0..4 {
        assert!(chip.screen.get(0, c));
    }
    for c in 4..8 {
        assert!(!chip.screen.get(0, c));
    }
    // Middle row of the 0 glyph: only its two side columns are lit.
    assert!(chip.screen.get(2, 0));
    assert!(!chip.screen.get(2, 1));
    assert!(!chip.screen.get(2, 2));
    assert!(chip.screen.get(2, 3));
}
