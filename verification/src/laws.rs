//! Stated and proved properties of the step semantics: the state invariant
//! is preserved, only the live stack prefix matters, and the arithmetic,
//! draw, binary-coded-decimal and register-file instructions behave as
//! documented.

use vstd::prelude::*;
use crate::architecture::Chip8View;
use crate::base::Nibble;
use crate::emulator::{
    draw_collision, draw_screen, pix_visible, spec_exec_instr, spec_fetch, spec_step, sprite_on,
};
use crate::language::{Instr, Register};

verus! {

/// Every state reached by a successful step from a well-formed state is well
/// formed: the program counter stays even and within `0x200..=0xFFE`, the
/// stack pointer within `0..=16`, and the index register within 12 bits.
/// Together with `Chip8::new` and `Chip8::load_memory`, which establish the
/// invariant, this covers every reachable state.
#[verifier::rlimit(100)]
pub proof fn lemma_step_preserves_wf(s: Chip8View, rand: u8)
    requires
        s.wf(),
    ensures
        spec_step(s, rand) matches Ok(t) ==> t.wf(),
{
    reveal(spec_step);
    reveal(spec_exec_instr);
    let hi = s.memory[s.pc as int];
    let lo = s.memory[s.pc as int + 1];
    crate::language::lemma_decode_wf(hi / 16, hi % 16, lo / 16, lo % 16);
}

/// Two states that agree everywhere but on the call-stack slots at or above
/// the stack pointer: the slots below it are the only meaningful ones.
pub open spec fn stack_agrees(a: Chip8View, b: Chip8View) -> bool {
    &&& b.memory == a.memory
    &&& b.i == a.i
    &&& b.pc == a.pc
    &&& b.sp == a.sp
    &&& b.delay == a.delay
    &&& b.sound == a.sound
    &&& b.regs == a.regs
    &&& b.screen == a.screen
    &&& b.stack.len() == a.stack.len()
    &&& forall|k: int| 0 <= k < a.sp ==> b.stack[k] == a.stack[k]
}

/// The step function reads nothing of the call stack above the stack
/// pointer: states that differ only there step to states that differ only
/// there, and fail in exactly the same way.
#[verifier::rlimit(100)]
pub proof fn lemma_step_stack_frame(s1: Chip8View, s2: Chip8View, rand: u8)
    requires
        s1.wf(),
        s2.wf(),
        stack_agrees(s1, s2),
    ensures
        match (spec_step(s1, rand), spec_step(s2, rand)) {
            (Ok(t1), Ok(t2)) => stack_agrees(t1, t2),
            (Err(e1), Err(e2)) => e1 == e2,
            _ => false,
        },
{
    reveal(spec_step);
    reveal(spec_exec_instr);
    assert(spec_fetch(s1) == spec_fetch(s2));
    let instr = spec_fetch(s1);
    match instr {
        Instr::Call { addr } => {
            if s1.sp < 16 {
                assert(s1.stack.update(s1.sp as int, (s1.pc + 2) as u16).len()
                    == s2.stack.update(s2.sp as int, (s2.pc + 2) as u16).len());
            }
        },
        _ => {},
    }
}

/// `Add` computes the sum modulo 256 and raises `VF` exactly when the true
/// sum reaches 256.  When the destination is `VF` itself, the flag write
/// lands last and overwrites the sum.
pub proof fn lemma_add_semantics(s: Chip8View, x: Register, y: Register, rand: u8)
    requires
        s.wf(),
    ensures
        spec_exec_instr(s, Instr::Add { r: x, s: y }, rand) matches Ok(t) ==> {
            let sum = s.regs[x.index()] + s.regs[y.index()];
            &&& t.regs[15] == if sum >= 256 { 1u8 } else { 0u8 }
            &&& x.index() != 15 ==> t.regs[x.index()] == sum % 256
        },
{
    reveal(spec_exec_instr);
}

/// `Sub` leaves `VF` at 0 exactly when the minuend `V[x]` was strictly less
/// than the subtrahend `V[y]`.
pub proof fn lemma_sub_flag(s: Chip8View, x: Register, y: Register, rand: u8)
    requires
        s.wf(),
    ensures
        spec_exec_instr(s, Instr::Sub { r: x, s: y }, rand) matches Ok(t) ==> {
            &&& (t.regs[15] == 0 <==> s.regs[x.index()] < s.regs[y.index()])
            &&& x.index() != 15 ==> t.regs[x.index()] == (s.regs[x.index()] - s.regs[
                y.index()
            ]) % 256
        },
{
    reveal(spec_exec_instr);
}

/// `Lt` (subtract the other way) leaves `VF` at 0 exactly when the minuend
/// `V[y]` was strictly less than the subtrahend `V[x]`.
pub proof fn lemma_lt_flag(s: Chip8View, x: Register, y: Register, rand: u8)
    requires
        s.wf(),
    ensures
        spec_exec_instr(s, Instr::Lt { r: x, s: y }, rand) matches Ok(t) ==> {
            &&& (t.regs[15] == 0 <==> s.regs[y.index()] < s.regs[x.index()])
            &&& x.index() != 15 ==> t.regs[x.index()] == (s.regs[y.index()] - s.regs[
                x.index()
            ]) % 256
        },
{
    reveal(spec_exec_instr);
}

/// Drawing over an all-dark framebuffer never reports a collision.
pub proof fn lemma_draw_zero_no_collision(
    s: Seq<bool>,
    mem: Seq<u8>,
    i: int,
    n: int,
    r0: int,
    c0: int,
)
    requires
        s.len() == 2048,
        0 <= r0,
        0 <= c0,
        forall|k: int| 0 <= k < 2048 ==> !s[k],
    ensures
        !draw_collision(s, mem, i, n, r0, c0),
{
    if draw_collision(s, mem, i, n, r0, c0) {
        let t = choose|t: int|
            0 <= t < 8 * n && pix_visible(r0, c0, t) && sprite_on(mem, i, t) && s[crate::emulator::pix_pos(
                r0,
                c0,
                t,
            )];
        assert(0 <= crate::emulator::pix_pos(r0, c0, t) < 2048);
    }
}

/// Drawing the same sprite twice at the same origin restores the
/// framebuffer: the XOR draw is an involution.
pub proof fn lemma_draw_involution(s: Seq<bool>, mem: Seq<u8>, i: int, n: int, r0: int, c0: int)
    ensures
        draw_screen(draw_screen(s, mem, i, n, r0, c0), mem, i, n, r0, c0) == s,
{
    assert(draw_screen(draw_screen(s, mem, i, n, r0, c0), mem, i, n, r0, c0) =~= s);
}

/// On an all-dark framebuffer, the second of two identical draws reports a
/// collision exactly when the sprite has a set pixel that lands on the
/// screen (a set bit clipped off at an edge touches nothing).
pub proof fn lemma_draw_twice_collision(
    s: Seq<bool>,
    mem: Seq<u8>,
    i: int,
    n: int,
    r0: int,
    c0: int,
)
    requires
        s.len() == 2048,
        0 <= r0,
        0 <= c0,
        forall|k: int| 0 <= k < 2048 ==> !s[k],
    ensures
        draw_collision(draw_screen(s, mem, i, n, r0, c0), mem, i, n, r0, c0) <==> exists|t: int|
            0 <= t < 8 * n && pix_visible(r0, c0, t) && sprite_on(mem, i, t),
{
    let s1 = draw_screen(s, mem, i, n, r0, c0);
    if exists|t: int| 0 <= t < 8 * n && pix_visible(r0, c0, t) && sprite_on(mem, i, t) {
        let t = choose|t: int| 0 <= t < 8 * n && pix_visible(r0, c0, t) && sprite_on(mem, i, t);
        let p = crate::emulator::pix_pos(r0, c0, t);
        assert(0 <= p < 2048);
        assert(crate::emulator::draw_hit(mem, i, n, r0, c0, p));
        assert(s1[p]);
        assert(draw_collision(s1, mem, i, n, r0, c0));
    }
}

/// `StoreBCD` writes the hundreds, tens and units digits of `V[x]`: each
/// stored byte is a decimal digit and together they reproduce the value.
pub proof fn lemma_bcd_digits(s: Chip8View, x: Register, rand: u8)
    requires
        s.wf(),
    ensures
        spec_exec_instr(s, Instr::StoreBCD { r: x }, rand) matches Ok(t) ==> {
            let v = s.regs[x.index()];
            &&& t.memory[s.i as int] * 100 + t.memory[s.i as int + 1] * 10 + t.memory[
                s.i as int + 2
            ] == v
            &&& t.memory[s.i as int] <= 9
            &&& t.memory[s.i as int + 1] <= 9
            &&& t.memory[s.i as int + 2] <= 9
        },
{
    reveal(spec_exec_instr);
    let v = s.regs[x.index()] as int;
    vstd::arithmetic::div_mod::lemma_fundamental_div_mod(v, 10);
    vstd::arithmetic::div_mod::lemma_fundamental_div_mod(v / 10, 10);
    vstd::arithmetic::div_mod::lemma_div_denominator(v, 10, 10);
    vstd::arithmetic::div_mod::lemma_fundamental_div_mod(v, 100);
}

/// `RegDump` followed by `RegLoad` with the same `x` and the same `I` leaves
/// every data register as it was.
pub proof fn lemma_regdump_regload(s: Chip8View, x: Nibble, rand1: u8, rand2: u8)
    requires
        s.wf(),
        x.wf(),
    ensures
        spec_exec_instr(s, Instr::RegDump { x }, rand1) matches Ok(t1) ==> {
            &&& t1.regs == s.regs
            &&& t1.i == s.i
            &&& (spec_exec_instr(t1, Instr::RegLoad { x }, rand2) matches Ok(t2) ==> t2.regs
                =~= s.regs)
        },
{
    reveal(spec_exec_instr);
    let o1 = spec_exec_instr(s, Instr::RegDump { x }, rand1);
    if o1 is Ok {
        let t1 = o1->Ok_0;
        let o2 = spec_exec_instr(t1, Instr::RegLoad { x }, rand2);
        if o2 is Ok {
            let t2 = o2->Ok_0;
            assert forall|k: int| 0 <= k < 16 implies t2.regs[k] == s.regs[k] by {
                if k <= x.0 {
                    assert(t1.memory[s.i + k] == s.regs[k]);
                }
            }
        }
    }
}

} // verus!
