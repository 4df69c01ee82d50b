use chip8::architecture::{Chip8, StepError};
use chip8::debugger::Debugger;
use chip8::language::Register;

fn loaded(program: &[u8]) -> Chip8 {
    let mut chip = Chip8::new();
    chip.load_memory(&program.to_vec()).expect("program fits");
    chip
}

// A program that sets V0, keeps incrementing it, and never halts.
fn counting_debugger() -> Debugger {
    Debugger::new(loaded(&[0x60, 0x00, 0x70, 0x01, 0x12, 0x02]))
}

#[test]
fn new_debugger_shows_the_initial_machine() {
    let d = Debugger::new(loaded(&[0x60, 0x07]));
    assert_eq!(d.step_number(), 0);
    assert_eq!(d.step_max(), 0);
    assert_eq!(d.peek().pc, 0x200);
    assert!(d.peek_prev().is_none());
}

#[test]
fn forward_then_back_restores_the_snapshot() {
    let mut d = counting_debugger();
    let initial_pc = d.peek().pc;
    let initial_regs = d.peek().registers.clone();
    let n = 7;
    for _ in 0..n {
        d.step_forward().unwrap();
    }
    assert_eq!(d.step_number(), n);
    for _ in 0..n {
        assert!(d.step_back());
    }
    assert_eq!(d.step_number(), 0);
    assert_eq!(d.peek().pc, initial_pc);
    assert_eq!(d.peek().registers, initial_regs);
}

#[test]
fn step_back_stops_at_the_oldest_snapshot() {
    let mut d = counting_debugger();
    assert!(!d.step_back());
    d.step_forward().unwrap();
    assert!(d.step_back());
    assert!(!d.step_back());
}

#[test]
fn replaying_forward_reuses_history() {
    let mut d = counting_debugger();
    for _ in 0..4 {
        d.step_forward().unwrap();
    }
    let pc_at_2: u16 = {
        d.steps_back(2);
        d.peek().pc
    };
    assert_eq!(d.step_max(), 4);
    d.step_forward().unwrap();
    // Replay did not extend history.
    assert_eq!(d.step_max(), 4);
    assert_eq!(d.step_number(), 3);
    d.step_back();
    assert_eq!(d.peek().pc, pc_at_2);
}

#[test]
fn failing_step_leaves_the_debugger_alone() {
    let mut d = Debugger::new(loaded(&[0x00, 0xEE]));
    assert_eq!(d.step_forward(), Err(StepError::StackUnderflow));
    assert_eq!(d.step_number(), 0);
    assert_eq!(d.step_max(), 0);
    assert_eq!(d.peek().pc, 0x200);
}

#[test]
fn peek_after_step_forward_is_one_machine_step() {
    let mut d = counting_debugger();
    let mut by_hand = d.peek().clone();
    d.step_forward().unwrap();
    by_hand.run_instr().unwrap();
    assert_eq!(d.peek().pc, by_hand.pc);
    assert_eq!(d.peek().registers, by_hand.registers);
}

#[test]
fn big_steps_move_in_tens() {
    let mut d = counting_debugger();
    d.steps_forward(10);
    assert_eq!(d.step_number(), 10);
    assert_eq!(d.peek().rv(Register::V0), 5);
    d.steps_back(10);
    assert_eq!(d.step_number(), 0);
    d.steps_back(10);
    assert_eq!(d.step_number(), 0);
}

#[test]
fn steps_forward_stops_at_a_failing_cycle() {
    // One plain instruction, then a return that underflows.
    let mut d = Debugger::new(loaded(&[0x60, 0x01, 0x00, 0xEE]));
    d.steps_forward(10);
    assert_eq!(d.step_number(), 1);
    assert_eq!(d.step_max(), 1);
}

#[test]
fn toggle_diff_flips_the_flag() {
    let mut d = counting_debugger();
    assert!(!d.diff);
    d.toggle_diff();
    assert!(d.diff);
    d.toggle_diff();
    assert!(!d.diff);
}

#[test]
fn peek_prev_sees_the_snapshot_before_the_cursor() {
    let mut d = counting_debugger();
    d.step_forward().unwrap();
    let prev = d.peek_prev().expect("cursor is past the start");
    assert_eq!(prev.pc, 0x200);
    assert_eq!(d.peek().pc, 0x202);
}
