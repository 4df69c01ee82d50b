use chip8::command::{Command, Key};
use chip8::parser::{parse_bytes, split};
use chip8::language::{Instr, Register};

#[test]
fn forward_keys() {
    for key in [Key::Char('n'), Key::Char(' '), Key::Enter, Key::Right] {
        assert_eq!(Command::command_from_key_pressed(key, false), Some(Command::StepForward));
    }
    assert_eq!(
        Command::command_from_key_pressed(Key::Char('N'), false),
        Some(Command::BigStepForward)
    );
}

#[test]
fn backward_keys() {
    for key in [Key::Char('p'), Key::Backspace, Key::Left] {
        assert_eq!(Command::command_from_key_pressed(key, false), Some(Command::StepBackward));
    }
    assert_eq!(
        Command::command_from_key_pressed(Key::Char('P'), false),
        Some(Command::BigStepBackward)
    );
}

#[test]
fn exit_keys() {
    for key in [Key::Char('q'), Key::Esc] {
        assert_eq!(Command::command_from_key_pressed(key, false), Some(Command::Exit));
        assert_eq!(Command::command_from_key_pressed(key, true), Some(Command::Exit));
    }
    assert_eq!(Command::command_from_key_pressed(Key::Char('c'), true), Some(Command::Exit));
    assert_eq!(Command::command_from_key_pressed(Key::Char('C'), true), Some(Command::Exit));
    assert_eq!(Command::command_from_key_pressed(Key::Char('c'), false), None);
}

#[test]
fn diff_key_and_unbound_keys() {
    assert_eq!(
        Command::command_from_key_pressed(Key::Char('d'), false),
        Some(Command::ToggleDiff)
    );
    assert_eq!(Command::command_from_key_pressed(Key::Char('z'), false), None);
    assert_eq!(Command::command_from_key_pressed(Key::Other, false), None);
    assert_eq!(Command::command_from_key_pressed(Key::Other, true), None);
}

#[test]
fn parse_bytes_decodes_every_pair() {
    let program = parse_bytes(vec![0x60, 0x01, 0x12, 0x00, 0xFF, 0xFF]);
    assert_eq!(program.instructions.len(), 3);
    assert!(matches!(program.instructions[0], Instr::SetReg { r: Register::V0, a: 1 }));
    assert!(matches!(program.instructions[1], Instr::Goto { addr } if addr.0 == 0x200));
    assert!(matches!(program.instructions[2], Instr::Data(0xF, 0xF, 0xF, 0xF)));
}

#[test]
fn parse_bytes_of_empty_image() {
    let program = parse_bytes(Vec::new());
    assert_eq!(program.instructions.len(), 0);
}

#[test]
fn split_pairs_the_bytes() {
    let raws = split(vec![0xAB, 0xCD, 0x12, 0x34]);
    assert_eq!(raws.len(), 2);
    assert_eq!(raws[0].nibbles[0].0, 0xA);
    assert_eq!(raws[0].nibbles[3].0, 0xD);
    assert_eq!(raws[1].nibbles[1].0, 0x2);
}
