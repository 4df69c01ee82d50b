//! Single-step execution: one fetch-decode-execute cycle, specified against
//! the mathematical machine model.

use vstd::prelude::*;
use crate::architecture::{valid_pc, Chip8, Chip8View, Screen, StepError};
use crate::language::{spec_decode, Instr, RawInstr, Register};
use crate::rng::random_byte;

verus! {

/// The sprite bit at column offset `j` of the sprite row `byte`; bit 7 is
/// the leftmost pixel.
pub open spec fn sprite_row_bit(byte: u8, j: int) -> bool {
    (byte >> ((7 - j) as u8)) & 1 == 1
}

/// The screen row touched by pixel `t` (row-major, eight pixels per sprite
/// row) of a sprite drawn at origin row `r0`.
pub open spec fn pix_row(r0: int, t: int) -> int {
    r0 + t / 8
}

/// The screen column touched by pixel `t` of a sprite drawn at origin
/// column `c0`.
pub open spec fn pix_col(c0: int, t: int) -> int {
    c0 + t % 8
}

/// Whether pixel `t` lands on the screen; sprites are clipped at the right
/// and bottom edges.
pub open spec fn pix_visible(r0: int, c0: int, t: int) -> bool {
    pix_row(r0, t) < 32 && pix_col(c0, t) < 64
}

/// The framebuffer index pixel `t` lands on.
pub open spec fn pix_pos(r0: int, c0: int, t: int) -> int {
    pix_row(r0, t) * 64 + pix_col(c0, t)
}

/// Whether pixel `t` of the sprite stored at `mem[i..]` is set.
pub open spec fn sprite_on(mem: Seq<u8>, i: int, t: int) -> bool {
    sprite_row_bit(mem[i + t / 8], t % 8)
}

/// Whether one of the first `p` sprite pixels is set, visible, and lands on
/// framebuffer index `k`.
pub open spec fn draw_hit_upto(mem: Seq<u8>, i: int, r0: int, c0: int, p: int, k: int) -> bool {
    exists|t: int|
        0 <= t < p && pix_visible(r0, c0, t) && sprite_on(mem, i, t) && pix_pos(r0, c0, t) == k
}

/// Whether a set, visible sprite pixel lands on framebuffer index `k`.
pub open spec fn draw_hit(mem: Seq<u8>, i: int, n: int, r0: int, c0: int, k: int) -> bool {
    draw_hit_upto(mem, i, r0, c0, 8 * n, k)
}

/// The framebuffer after XOR-drawing the `n`-row sprite at `mem[i..i+n]`
/// with origin `(r0, c0)`.
pub open spec fn draw_screen(s: Seq<bool>, mem: Seq<u8>, i: int, n: int, r0: int, c0: int) -> Seq<
    bool,
> {
    Seq::new(s.len(), |k: int| s[k] != draw_hit(mem, i, n, r0, c0, k))
}

/// Whether one of the first `p` sprite pixels turns off a lit pixel of `s`.
pub open spec fn draw_collision_upto(
    s: Seq<bool>,
    mem: Seq<u8>,
    i: int,
    r0: int,
    c0: int,
    p: int,
) -> bool {
    exists|t: int|
        0 <= t < p && pix_visible(r0, c0, t) && sprite_on(mem, i, t) && s[pix_pos(r0, c0, t)]
}

/// Whether the draw turns off any lit pixel: the collision `VF` reports.
pub open spec fn draw_collision(s: Seq<bool>, mem: Seq<u8>, i: int, n: int, r0: int, c0: int) -> bool {
    draw_collision_upto(s, mem, i, r0, c0, 8 * n)
}

/// Two visible pixels of one draw never land on the same framebuffer index.
pub proof fn lemma_pix_pos_injective(r0: int, c0: int, t1: int, t2: int)
    requires
        0 <= r0,
        0 <= c0,
        0 <= t1,
        0 <= t2,
        pix_visible(r0, c0, t1),
        pix_visible(r0, c0, t2),
        pix_pos(r0, c0, t1) == pix_pos(r0, c0, t2),
    ensures
        t1 == t2,
{
    vstd::arithmetic::div_mod::lemma_fundamental_div_mod_converse(
        pix_pos(r0, c0, t1),
        64,
        pix_row(r0, t1),
        pix_col(c0, t1),
    );
    vstd::arithmetic::div_mod::lemma_fundamental_div_mod_converse(
        pix_pos(r0, c0, t2),
        64,
        pix_row(r0, t2),
        pix_col(c0, t2),
    );
    vstd::arithmetic::div_mod::lemma_fundamental_div_mod(t1, 8);
    vstd::arithmetic::div_mod::lemma_fundamental_div_mod(t2, 8);
}

/// The state with the program counter moved `amt` bytes forward, or
/// `MemoryRange` if it would come to rest outside the valid range.
pub open spec fn step_pc(s: Chip8View, amt: int) -> Result<Chip8View, StepError> {
    if valid_pc(s.pc + amt) {
        Ok(Chip8View { pc: (s.pc + amt) as u16, ..s })
    } else {
        Err(StepError::MemoryRange)
    }
}

/// The state with the program counter placed at `target`, or `MemoryRange`
/// if `target` is not a valid resting place.
pub open spec fn jump_to(s: Chip8View, target: int) -> Result<Chip8View, StepError> {
    if valid_pc(target) {
        Ok(Chip8View { pc: target as u16, ..s })
    } else {
        Err(StepError::MemoryRange)
    }
}

/// The effect of one decoded instruction on the machine state.  `rand` is
/// the byte drawn from the random source, read only by `Rand`.
#[verifier::opaque]
pub open spec fn spec_exec_instr(s: Chip8View, instr: Instr, rand: u8) -> Result<
    Chip8View,
    StepError,
> {
    match instr {
        Instr::System { addr } => step_pc(s, 2),
        Instr::Clear => step_pc(Chip8View { screen: Seq::new(2048, |k: int| false), ..s }, 2),
        Instr::Ret => if s.sp == 0 {
            Err(StepError::StackUnderflow)
        } else {
            jump_to(Chip8View { sp: (s.sp - 1) as u8, ..s }, s.stack[s.sp - 1] as int)
        },
        Instr::Goto { addr } => jump_to(s, addr.0 as int),
        Instr::Call { addr } => if s.sp >= 16 {
            Err(StepError::StackOverflow)
        } else {
            jump_to(
                Chip8View {
                    stack: s.stack.update(s.sp as int, (s.pc + 2) as u16),
                    sp: (s.sp + 1) as u8,
                    ..s
                },
                addr.0 as int,
            )
        },
        Instr::SkipEq { r, c } => step_pc(s, if s.regs[r.index()] == c { 4 } else { 2 }),
        Instr::SkipNEq { r, c } => step_pc(s, if s.regs[r.index()] != c { 4 } else { 2 }),
        Instr::SkipEqV { r, s: t } => step_pc(
            s,
            if s.regs[r.index()] == s.regs[t.index()] { 4 } else { 2 },
        ),
        Instr::SetReg { r, a } => step_pc(Chip8View { regs: s.regs.update(r.index(), a), ..s }, 2),
        Instr::Incr { r, a } => step_pc(
            Chip8View {
                regs: s.regs.update(r.index(), ((s.regs[r.index()] + a) % 256) as u8),
                ..s
            },
            2,
        ),
        Instr::Copy { r, s: t } => step_pc(
            Chip8View { regs: s.regs.update(r.index(), s.regs[t.index()]), ..s },
            2,
        ),
        Instr::BitOr { r, s: t } => step_pc(
            Chip8View { regs: s.regs.update(r.index(), s.regs[r.index()] | s.regs[t.index()]), ..s },
            2,
        ),
        Instr::BitAnd { r, s: t } => step_pc(
            Chip8View { regs: s.regs.update(r.index(), s.regs[r.index()] & s.regs[t.index()]), ..s },
            2,
        ),
        Instr::BitXOr { r, s: t } => step_pc(
            Chip8View { regs: s.regs.update(r.index(), s.regs[r.index()] ^ s.regs[t.index()]), ..s },
            2,
        ),
        Instr::Add { r, s: t } => {
            let sum = s.regs[r.index()] + s.regs[t.index()];
            step_pc(
                Chip8View {
                    regs: s.regs.update(r.index(), (sum % 256) as u8).update(
                        15,
                        if sum >= 256 { 1u8 } else { 0u8 },
                    ),
                    ..s
                },
                2,
            )
        },
        Instr::Sub { r, s: t } => {
            let vx = s.regs[r.index()];
            let vy = s.regs[t.index()];
            step_pc(
                Chip8View {
                    regs: s.regs.update(r.index(), ((vx - vy) % 256) as u8).update(
                        15,
                        if vx < vy { 0u8 } else { 1u8 },
                    ),
                    ..s
                },
                2,
            )
        },
        Instr::ShiftR { r } => {
            let vx = s.regs[r.index()];
            step_pc(
                Chip8View {
                    regs: s.regs.update(r.index(), vx / 2).update(15, vx % 2),
                    ..s
                },
                2,
            )
        },
        Instr::Lt { r, s: t } => {
            let vx = s.regs[r.index()];
            let vy = s.regs[t.index()];
            step_pc(
                Chip8View {
                    regs: s.regs.update(r.index(), ((vy - vx) % 256) as u8).update(
                        15,
                        if vy < vx { 0u8 } else { 1u8 },
                    ),
                    ..s
                },
                2,
            )
        },
        Instr::ShiftL { r } => {
            let vx = s.regs[r.index()];
            step_pc(
                Chip8View {
                    regs: s.regs.update(r.index(), ((vx * 2) % 256) as u8).update(15, vx / 128),
                    ..s
                },
                2,
            )
        },
        Instr::SkipNEqV { r, s: t } => step_pc(
            s,
            if s.regs[r.index()] != s.regs[t.index()] { 4 } else { 2 },
        ),
        Instr::SetI { n } => step_pc(Chip8View { i: n.0, ..s }, 2),
        Instr::Jump { n } => jump_to(s, s.regs[0] + n.0),
        Instr::Rand { r, n } => step_pc(
            Chip8View { regs: s.regs.update(r.index(), rand & n), ..s },
            2,
        ),
        Instr::Draw { x, y, height } => {
            let n = height as int;
            if s.i + n > 4096 {
                Err(StepError::MemoryRange)
            } else {
                let r0 = s.regs[y.index()] as int % 32;
                let c0 = s.regs[x.index()] as int % 64;
                let coll = draw_collision(s.screen, s.memory, s.i as int, n, r0, c0);
                step_pc(
                    Chip8View {
                        screen: draw_screen(s.screen, s.memory, s.i as int, n, r0, c0),
                        regs: s.regs.update(15, if coll { 1u8 } else { 0u8 }),
                        ..s
                    },
                    2,
                )
            }
        },
        Instr::Pressed { r } => Err(StepError::BadInstruction),
        Instr::NotPressed { r } => Err(StepError::BadInstruction),
        Instr::GetDelay { r } => Err(StepError::BadInstruction),
        Instr::LoadKey { r } => Err(StepError::BadInstruction),
        Instr::SetDelayTimer { r } => Err(StepError::BadInstruction),
        Instr::SetSoundTimer { r } => Err(StepError::BadInstruction),
        Instr::IncrI { r } => step_pc(
            Chip8View { i: ((s.i + s.regs[r.index()]) % 0x1000) as u16, ..s },
            2,
        ),
        Instr::SpriteAddr { r } => step_pc(
            Chip8View { i: (5 * (s.regs[r.index()] % 16)) as u16, ..s },
            2,
        ),
        Instr::StoreBCD { r } => if s.i + 2 > 4095 {
            Err(StepError::MemoryRange)
        } else {
            let v = s.regs[r.index()];
            step_pc(
                Chip8View {
                    memory: s.memory.update(s.i as int, v / 100).update(
                        s.i as int + 1,
                        (v / 10) % 10,
                    ).update(s.i as int + 2, v % 10),
                    ..s
                },
                2,
            )
        },
        Instr::RegDump { x } => {
            let nx = x.0 as int;
            if s.i + nx > 4095 {
                Err(StepError::MemoryRange)
            } else {
                step_pc(
                    Chip8View {
                        memory: Seq::new(
                            4096,
                            |k: int|
                                if s.i <= k <= s.i + nx {
                                    s.regs[k - s.i]
                                } else {
                                    s.memory[k]
                                },
                        ),
                        ..s
                    },
                    2,
                )
            }
        },
        Instr::RegLoad { x } => {
            let nx = x.0 as int;
            if s.i + nx > 4095 {
                Err(StepError::MemoryRange)
            } else {
                step_pc(
                    Chip8View {
                        regs: Seq::new(
                            16,
                            |k: int| if k <= nx { s.memory[s.i + k] } else { s.regs[k] },
                        ),
                        ..s
                    },
                    2,
                )
            }
        },
        Instr::Data(_, _, _, _) => Err(StepError::BadInstruction),
    }
}

/// The instruction at the program counter: two big-endian bytes, decoded.
pub open spec fn spec_fetch(s: Chip8View) -> Instr {
    let hi = s.memory[s.pc as int];
    let lo = s.memory[s.pc as int + 1];
    spec_decode(hi / 16, hi % 16, lo / 16, lo % 16)
}

/// One whole fetch-decode-execute cycle on the machine model.
#[verifier::opaque]
pub open spec fn spec_step(s: Chip8View, rand: u8) -> Result<Chip8View, StepError> {
    if s.pc + 1 >= 4096 {
        Err(StepError::MemoryRange)
    } else {
        spec_exec_instr(s, spec_fetch(s), rand)
    }
}

impl Chip8 {
    /// The value of a data register.
    pub fn rv(&self, r: Register) -> (b: u8)
        requires
            self@.wf(),
        ensures
            b == self@.regs[r.index()],
    {
        self.registers[r.as_usize()]
    }

    /// Writes a data register.
    fn set_reg(&mut self, r: Register, val: u8)
        requires
            old(self)@.wf(),
        ensures
            final(self)@ == (Chip8View { regs: old(self)@.regs.update(r.index(), val), ..old(self)@ }),
            final(self)@.wf(),
    {
        let idx = r.as_usize();
        self.registers.set(idx, val);
        proof {
            assert(self@ =~= (Chip8View {
                regs: old(self)@.regs.update(r.index(), val),
                ..old(self)@
            }));
        }
    }

    /// Reads and decodes the instruction at the program counter.
    pub fn read_instr(&self) -> (i: Instr)
        requires
            self@.wf(),
        ensures
            i == spec_fetch(self@),
            i.wf(),
    {
        let upc = self.pc as usize;
        let hi = self.memory[upc];
        let lo = self.memory[upc + 1];
        let raw = RawInstr::from_bytes([hi, lo]);
        let i = raw.into_instr();
        proof {
            crate::language::lemma_decode_wf(hi / 16, hi % 16, lo / 16, lo % 16);
        }
        i
    }

    /// The program counter moved `amt` bytes forward, or `MemoryRange` if it
    /// would come to rest outside the valid range.
    fn checked_pc(&self, amt: u16) -> (r: Result<u16, StepError>)
        requires
            self@.wf(),
            amt == 2 || amt == 4,
        ensures
            r matches Ok(p) ==> valid_pc(p as int) && p == self.pc + amt,
            r is Err ==> r == Err::<u16, StepError>(StepError::MemoryRange) && !valid_pc(
                self.pc + amt,
            ),
    {
        let t = self.pc + amt;
        if t <= 0xFFE {
            Ok(t)
        } else {
            Err(StepError::MemoryRange)
        }
    }

    /// Checks a prescribed program-counter target.
    fn checked_target(target: u32) -> (r: Result<u16, StepError>)
        ensures
            r matches Ok(p) ==> valid_pc(p as int) && p == target,
            r is Err ==> r == Err::<u16, StepError>(StepError::MemoryRange) && !valid_pc(
                target as int,
            ),
    {
        if 0x200 <= target && target <= 0xFFE && target % 2 == 0 {
            Ok(target as u16)
        } else {
            Err(StepError::MemoryRange)
        }
    }

    /// Moves the program counter over the instruction just executed.
    pub fn pc_incr(&mut self)
        requires
            old(self)@.wf(),
            old(self).pc + 2 <= 0xFFE,
        ensures
            final(self)@ == (Chip8View { pc: (old(self).pc + 2) as u16, ..old(self)@ }),
    {
        self.pc = self.pc + 2;
    }

    /// Pops the call stack.
    pub fn pop_stack(&mut self) -> (v: u16)
        requires
            old(self)@.wf(),
            old(self).sp > 0,
        ensures
            v == old(self)@.stack[old(self).sp - 1],
            final(self)@ == (Chip8View { sp: (old(self).sp - 1) as u8, ..old(self)@ }),
            final(self)@.wf(),
    {
        let v = self.stack[(self.sp - 1) as usize];
        self.sp = self.sp - 1;
        v
    }

    /// Pushes a return address onto the call stack.
    pub fn push_stack(&mut self, val: u16)
        requires
            old(self)@.wf(),
            old(self).sp < 16,
        ensures
            final(self)@ == (Chip8View {
                stack: old(self)@.stack.update(old(self).sp as int, val),
                sp: (old(self).sp + 1) as u8,
                ..old(self)@
            }),
            final(self)@.wf(),
    {
        let idx = self.sp as usize;
        self.stack.set(idx, val);
        self.sp = self.sp + 1;
    }
}

impl Chip8 {
    /// Control flow: `System`, `Clear`, `Ret`, `Goto`, `Call`.
    fn exec_flow(&mut self, instr: Instr, rand: u8) -> (r: Result<(), StepError>)
        requires
            old(self)@.wf(),
            instr.wf(),
            instr is System || instr is Clear || instr is Ret || instr is Goto || instr is Call,
        ensures
            final(self)@.wf(),
            r is Ok ==> spec_exec_instr(old(self)@, instr, rand) == Ok::<Chip8View, StepError>(final(self)@),
            r matches Err(e) ==> spec_exec_instr(old(self)@, instr, rand) == Err::<Chip8View, StepError>(e)
                && final(self)@ == old(self)@,
    {
        proof {
            reveal(spec_exec_instr);
        }
        match instr {
            Instr::System { addr: _ } => {
                let npc = match self.checked_pc(2) {
                    Ok(p) => p,
                    Err(e) => { return Err(e); },
                };
                self.pc = npc;
                Ok(())
            },
            Instr::Clear => {
                let npc = match self.checked_pc(2) {
                    Ok(p) => p,
                    Err(e) => { return Err(e); },
                };
                self.screen = Screen::new();
                self.pc = npc;
                proof {
                    assert(self@ =~= (Chip8View {
                        screen: Seq::new(2048, |k: int| false),
                        pc: npc,
                        ..old(self)@
                    }));
                }
                Ok(())
            },
            Instr::Ret => {
                if self.sp == 0 {
                    return Err(StepError::StackUnderflow);
                }
                let t = self.stack[(self.sp - 1) as usize];
                let npc = match Self::checked_target(t as u32) {
                    Ok(p) => p,
                    Err(e) => { return Err(e); },
                };
                let _popped = self.pop_stack();
                self.pc = npc;
                Ok(())
            },
            Instr::Goto { addr } => {
                let npc = match Self::checked_target(addr.0 as u32) {
                    Ok(p) => p,
                    Err(e) => { return Err(e); },
                };
                self.pc = npc;
                Ok(())
            },
            Instr::Call { addr } => {
                if self.sp >= 16 {
                    return Err(StepError::StackOverflow);
                }
                let npc = match Self::checked_target(addr.0 as u32) {
                    Ok(p) => p,
                    Err(e) => { return Err(e); },
                };
                let ret = self.pc + 2;
                self.push_stack(ret);
                self.pc = npc;
                Ok(())
            },
            _ => {
                proof {
                    assert(false);
                }
                Err(StepError::BadInstruction)
            },
        }
    }

    /// Moves the program counter two or four bytes forward, as a skip
    /// instruction whose predicate came out `cond` does.
    fn skip_pc(&mut self, cond: bool) -> (r: Result<(), StepError>)
        requires
            old(self)@.wf(),
        ensures
            final(self)@.wf(),
            r is Ok ==> step_pc(old(self)@, if cond { 4int } else { 2int }) == Ok::<Chip8View, StepError>(final(self)@),
            r matches Err(e) ==> step_pc(old(self)@, if cond { 4int } else { 2int }) == Err::<Chip8View, StepError>(e)
                && final(self)@ == old(self)@,
    {
        let amt: u16 = if cond { 4 } else { 2 };
        let npc = match self.checked_pc(amt) {
            Ok(p) => p,
            Err(e) => { return Err(e); },
        };
        self.pc = npc;
        Ok(())
    }

    /// The skip instructions.
    fn exec_skip(&mut self, instr: Instr, rand: u8) -> (r: Result<(), StepError>)
        requires
            old(self)@.wf(),
            instr is SkipEq || instr is SkipNEq || instr is SkipEqV || instr is SkipNEqV,
        ensures
            final(self)@.wf(),
            r is Ok ==> spec_exec_instr(old(self)@, instr, rand) == Ok::<Chip8View, StepError>(final(self)@),
            r matches Err(e) ==> spec_exec_instr(old(self)@, instr, rand) == Err::<Chip8View, StepError>(e)
                && final(self)@ == old(self)@,
    {
        proof {
            reveal(spec_exec_instr);
        }
        match instr {
            Instr::SkipEq { r, c } => {
                let cond = self.rv(r) == c;
                self.skip_pc(cond)
            },
            Instr::SkipNEq { r, c } => {
                let cond = self.rv(r) != c;
                self.skip_pc(cond)
            },
            Instr::SkipEqV { r, s } => {
                let cond = self.rv(r) == self.rv(s);
                self.skip_pc(cond)
            },
            Instr::SkipNEqV { r, s } => {
                let cond = self.rv(r) != self.rv(s);
                self.skip_pc(cond)
            },
            _ => {
                proof {
                    assert(false);
                }
                Err(StepError::BadInstruction)
            },
        }
    }

    /// Register moves and bitwise operations: `SetReg`, `Incr`, `Copy`,
    /// `BitOr`, `BitAnd`, `BitXOr`.
    fn exec_alu_move(&mut self, instr: Instr, rand: u8) -> (r: Result<(), StepError>)
        requires
            old(self)@.wf(),
            instr is SetReg || instr is Incr || instr is Copy || instr is BitOr || instr is BitAnd
                || instr is BitXOr,
        ensures
            final(self)@.wf(),
            r is Ok ==> spec_exec_instr(old(self)@, instr, rand) == Ok::<Chip8View, StepError>(final(self)@),
            r matches Err(e) ==> spec_exec_instr(old(self)@, instr, rand) == Err::<Chip8View, StepError>(e)
                && final(self)@ == old(self)@,
    {
        proof {
            reveal(spec_exec_instr);
        }
        let npc = match self.checked_pc(2) {
            Ok(p) => p,
            Err(e) => { return Err(e); },
        };
        match instr {
            Instr::SetReg { r, a } => {
                self.set_reg(r, a);
            },
            Instr::Incr { r, a } => {
                let vx = self.rv(r);
                let nv = ((vx as u16 + a as u16) % 256) as u8;
                self.set_reg(r, nv);
            },
            Instr::Copy { r, s } => {
                let vy = self.rv(s);
                self.set_reg(r, vy);
            },
            Instr::BitOr { r, s } => {
                let nv = self.rv(r) | self.rv(s);
                self.set_reg(r, nv);
            },
            Instr::BitAnd { r, s } => {
                let nv = self.rv(r) & self.rv(s);
                self.set_reg(r, nv);
            },
            Instr::BitXOr { r, s } => {
                let nv = self.rv(r) ^ self.rv(s);
                self.set_reg(r, nv);
            },
            _ => {
                proof {
                    assert(false);
                }
            },
        }
        self.pc = npc;
        Ok(())
    }

    /// Arithmetic with the `VF` side channel: `Add`, `Sub`, `ShiftR`, `Lt`,
    /// `ShiftL`.  The flag is written last, so a destination of `VF` ends up
    /// holding the flag.
    fn exec_alu_arith(&mut self, instr: Instr, rand: u8) -> (r: Result<(), StepError>)
        requires
            old(self)@.wf(),
            instr is Add || instr is Sub || instr is ShiftR || instr is Lt || instr is ShiftL,
        ensures
            final(self)@.wf(),
            r is Ok ==> spec_exec_instr(old(self)@, instr, rand) == Ok::<Chip8View, StepError>(final(self)@),
            r matches Err(e) ==> spec_exec_instr(old(self)@, instr, rand) == Err::<Chip8View, StepError>(e)
                && final(self)@ == old(self)@,
    {
        proof {
            reveal(spec_exec_instr);
        }
        let npc = match self.checked_pc(2) {
            Ok(p) => p,
            Err(e) => { return Err(e); },
        };
        match instr {
            Instr::Add { r, s } => {
                let vx = self.rv(r);
                let vy = self.rv(s);
                let sum = vx as u16 + vy as u16;
                self.set_reg(r, (sum % 256) as u8);
                self.set_reg(Register::VF, if sum >= 256 { 1 } else { 0 });
            },
            Instr::Sub { r, s } => {
                let vx = self.rv(r);
                let vy = self.rv(s);
                let nv = ((vx as u16 + 256 - vy as u16) % 256) as u8;
                proof {
                    vstd::arithmetic::div_mod::lemma_mod_add_multiples_vanish(
                        vx as int - vy as int,
                        256,
                    );
                }
                self.set_reg(r, nv);
                self.set_reg(Register::VF, if vx < vy { 0 } else { 1 });
            },
            Instr::ShiftR { r } => {
                let vx = self.rv(r);
                self.set_reg(r, vx / 2);
                self.set_reg(Register::VF, vx % 2);
            },
            Instr::Lt { r, s } => {
                let vx = self.rv(r);
                let vy = self.rv(s);
                let nv = ((vy as u16 + 256 - vx as u16) % 256) as u8;
                proof {
                    vstd::arithmetic::div_mod::lemma_mod_add_multiples_vanish(
                        vy as int - vx as int,
                        256,
                    );
                }
                self.set_reg(r, nv);
                self.set_reg(Register::VF, if vy < vx { 0 } else { 1 });
            },
            Instr::ShiftL { r } => {
                let vx = self.rv(r);
                let nv = (vx % 128) * 2;
                proof {
                    if vx < 128 {
                        vstd::arithmetic::div_mod::lemma_small_mod((2 * vx) as nat, 256);
                    } else {
                        vstd::arithmetic::div_mod::lemma_mod_add_multiples_vanish(
                            vx as int - 128,
                            128,
                        );
                        vstd::arithmetic::div_mod::lemma_small_mod((vx - 128) as nat, 128);
                        assert((2 * (vx as int)) % 256 == (2 * (vx as int) - 256) % 256) by {
                            vstd::arithmetic::div_mod::lemma_mod_add_multiples_vanish(
                                2 * (vx as int) - 256,
                                256,
                            );
                        }
                        vstd::arithmetic::div_mod::lemma_small_mod(
                            (2 * (vx as int) - 256) as nat,
                            256,
                        );
                    }
                }
                self.set_reg(r, nv);
                self.set_reg(Register::VF, vx / 128);
            },
            _ => {
                proof {
                    assert(false);
                }
            },
        }
        self.pc = npc;
        Ok(())
    }

    /// `SetI`, `Jump`, `Rand`, `IncrI`, `SpriteAddr`.
    fn exec_misc(&mut self, instr: Instr, rand: u8) -> (r: Result<(), StepError>)
        requires
            old(self)@.wf(),
            instr.wf(),
            instr is SetI || instr is Jump || instr is Rand || instr is IncrI
                || instr is SpriteAddr,
        ensures
            final(self)@.wf(),
            r is Ok ==> spec_exec_instr(old(self)@, instr, rand) == Ok::<Chip8View, StepError>(final(self)@),
            r matches Err(e) ==> spec_exec_instr(old(self)@, instr, rand) == Err::<Chip8View, StepError>(e)
                && final(self)@ == old(self)@,
    {
        proof {
            reveal(spec_exec_instr);
        }
        match instr {
            Instr::SetI { n } => {
                let npc = match self.checked_pc(2) {
                    Ok(p) => p,
                    Err(e) => { return Err(e); },
                };
                self.i = n.0;
                self.pc = npc;
                Ok(())
            },
            Instr::Jump { n } => {
                let target = self.rv(Register::V0) as u32 + n.0 as u32;
                let npc = match Self::checked_target(target) {
                    Ok(p) => p,
                    Err(e) => { return Err(e); },
                };
                self.pc = npc;
                Ok(())
            },
            Instr::Rand { r, n } => {
                let npc = match self.checked_pc(2) {
                    Ok(p) => p,
                    Err(e) => { return Err(e); },
                };
                self.set_reg(r, rand & n);
                self.pc = npc;
                Ok(())
            },
            Instr::IncrI { r } => {
                let npc = match self.checked_pc(2) {
                    Ok(p) => p,
                    Err(e) => { return Err(e); },
                };
                self.i = (self.i + self.rv(r) as u16) % 0x1000;
                self.pc = npc;
                Ok(())
            },
            Instr::SpriteAddr { r } => {
                let npc = match self.checked_pc(2) {
                    Ok(p) => p,
                    Err(e) => { return Err(e); },
                };
                self.i = 5 * ((self.rv(r) % 16) as u16);
                self.pc = npc;
                Ok(())
            },
            _ => {
                proof {
                    assert(false);
                }
                Err(StepError::BadInstruction)
            },
        }
    }

    /// Writes the decimal digits of `V[x]` to `mem[I..I+3]`.
    fn exec_bcd(&mut self, instr: Instr, rand: u8) -> (r: Result<(), StepError>)
        requires
            old(self)@.wf(),
            instr is StoreBCD,
        ensures
            final(self)@.wf(),
            r is Ok ==> spec_exec_instr(old(self)@, instr, rand) == Ok::<Chip8View, StepError>(final(self)@),
            r matches Err(e) ==> spec_exec_instr(old(self)@, instr, rand) == Err::<Chip8View, StepError>(e)
                && final(self)@ == old(self)@,
    {
        proof {
            reveal(spec_exec_instr);
        }
        match instr {
            Instr::StoreBCD { r } => {
                let i = self.i as usize;
                if i + 2 > 4095 {
                    return Err(StepError::MemoryRange);
                }
                let npc = match self.checked_pc(2) {
                    Ok(p) => p,
                    Err(e) => { return Err(e); },
                };
                let v = self.rv(r);
                self.memory.set(i, v / 100);
                self.memory.set(i + 1, (v / 10) % 10);
                self.memory.set(i + 2, v % 10);
                self.pc = npc;
                Ok(())
            },
            _ => {
                proof {
                    assert(false);
                }
                Err(StepError::BadInstruction)
            },
        }
    }

    /// `mem[I + k] := V[k]` for `k` in `0..=x`.
    fn exec_reg_dump(&mut self, instr: Instr, rand: u8) -> (r: Result<(), StepError>)
        requires
            old(self)@.wf(),
            instr.wf(),
            instr is RegDump,
        ensures
            final(self)@.wf(),
            r is Ok ==> spec_exec_instr(old(self)@, instr, rand) == Ok::<Chip8View, StepError>(final(self)@),
            r matches Err(e) ==> spec_exec_instr(old(self)@, instr, rand) == Err::<Chip8View, StepError>(e)
                && final(self)@ == old(self)@,
    {
        proof {
            reveal(spec_exec_instr);
        }
        match instr {
            Instr::RegDump { x } => {
                let nx = x.0 as usize;
                let i = self.i as usize;
                if i + nx > 4095 {
                    return Err(StepError::MemoryRange);
                }
                let npc = match self.checked_pc(2) {
                    Ok(p) => p,
                    Err(e) => { return Err(e); },
                };
                let mut k: usize = 0;
                while k <= nx
                    invariant
                        old(self)@.wf(),
                        nx <= 15,
                        i == old(self).i,
                        i + nx <= 4095,
                        k <= nx + 1,
                        self.memory.len() == 4096,
                        self.i == old(self).i,
                        self.pc == old(self).pc,
                        self.sp == old(self).sp,
                        self.delay == old(self).delay,
                        self.sound == old(self).sound,
                        self.stack@ == old(self)@.stack,
                        self.registers@ == old(self)@.regs,
                        self.screen@ == old(self)@.screen,
                        forall|j: int| 0 <= j < k ==> self.memory@[i + j] == old(self)@.regs[j],
                        forall|j: int|
                            0 <= j < 4096 && !(i <= j < i + k) ==> self.memory@[j] == old(
                                self,
                            )@.memory[j],
                    decreases nx + 1 - k,
                {
                    let val = self.registers[k];
                    self.memory.set(i + k, val);
                    k = k + 1;
                }
                self.pc = npc;
                proof {
                    assert(self@ =~= (Chip8View {
                        memory: Seq::new(
                            4096,
                            |j: int|
                                if i <= j <= i + nx {
                                    old(self)@.regs[j - i]
                                } else {
                                    old(self)@.memory[j]
                                },
                        ),
                        pc: npc,
                        ..old(self)@
                    }));
                }
                Ok(())
            },
            _ => {
                proof {
                    assert(false);
                }
                Err(StepError::BadInstruction)
            },
        }
    }

    /// `V[k] := mem[I + k]` for `k` in `0..=x`.
    fn exec_reg_load(&mut self, instr: Instr, rand: u8) -> (r: Result<(), StepError>)
        requires
            old(self)@.wf(),
            instr.wf(),
            instr is RegLoad,
        ensures
            final(self)@.wf(),
            r is Ok ==> spec_exec_instr(old(self)@, instr, rand) == Ok::<Chip8View, StepError>(final(self)@),
            r matches Err(e) ==> spec_exec_instr(old(self)@, instr, rand) == Err::<Chip8View, StepError>(e)
                && final(self)@ == old(self)@,
    {
        proof {
            reveal(spec_exec_instr);
        }
        match instr {
            Instr::RegLoad { x } => {
                let nx = x.0 as usize;
                let i = self.i as usize;
                if i + nx > 4095 {
                    return Err(StepError::MemoryRange);
                }
                let npc = match self.checked_pc(2) {
                    Ok(p) => p,
                    Err(e) => { return Err(e); },
                };
                let mut k: usize = 0;
                while k <= nx
                    invariant
                        old(self)@.wf(),
                        nx <= 15,
                        i == old(self).i,
                        i + nx <= 4095,
                        k <= nx + 1,
                        self.registers.len() == 16,
                        self.i == old(self).i,
                        self.pc == old(self).pc,
                        self.sp == old(self).sp,
                        self.delay == old(self).delay,
                        self.sound == old(self).sound,
                        self.stack@ == old(self)@.stack,
                        self.memory@ == old(self)@.memory,
                        self.screen@ == old(self)@.screen,
                        forall|j: int| 0 <= j < k ==> self.registers@[j] == old(self)@.memory[i + j],
                        forall|j: int| k <= j < 16 ==> self.registers@[j] == old(self)@.regs[j],
                    decreases nx + 1 - k,
                {
                    let val = self.memory[i + k];
                    self.registers.set(k, val);
                    k = k + 1;
                }
                self.pc = npc;
                proof {
                    assert(self@ =~= (Chip8View {
                        regs: Seq::new(
                            16,
                            |j: int|
                                if j <= nx {
                                    old(self)@.memory[i + j]
                                } else {
                                    old(self)@.regs[j]
                                },
                        ),
                        pc: npc,
                        ..old(self)@
                    }));
                }
                Ok(())
            },
            _ => {
                proof {
                    assert(false);
                }
                Err(StepError::BadInstruction)
            },
        }
    }
}

impl Chip8 {
    /// The keypad and timer opcodes the pure core does not implement, and
    /// `Data`: executing any of them is reported as `BadInstruction`.
    fn exec_bad(&mut self, instr: Instr, rand: u8) -> (r: Result<(), StepError>)
        requires
            old(self)@.wf(),
            instr is Pressed || instr is NotPressed || instr is GetDelay || instr is LoadKey
                || instr is SetDelayTimer || instr is SetSoundTimer || instr is Data,
        ensures
            final(self)@.wf(),
            r is Ok ==> spec_exec_instr(old(self)@, instr, rand) == Ok::<Chip8View, StepError>(final(self)@),
            r matches Err(e) ==> spec_exec_instr(old(self)@, instr, rand) == Err::<Chip8View, StepError>(e)
                && final(self)@ == old(self)@,
    {
        proof {
            reveal(spec_exec_instr);
        }
        Err(StepError::BadInstruction)
    }

    /// XOR-draws an `n`-row sprite from `mem[I..I+n]` at the origin given by
    /// the coordinate registers, clipping at the screen edges, and reports
    /// the collision through `VF`.
    fn exec_draw(&mut self, instr: Instr, rand: u8) -> (r: Result<(), StepError>)
        requires
            old(self)@.wf(),
            instr.wf(),
            instr is Draw,
        ensures
            final(self)@.wf(),
            r is Ok ==> spec_exec_instr(old(self)@, instr, rand) == Ok::<Chip8View, StepError>(final(self)@),
            r matches Err(e) ==> spec_exec_instr(old(self)@, instr, rand) == Err::<Chip8View, StepError>(e)
                && final(self)@ == old(self)@,
    {
        proof {
            reveal(spec_exec_instr);
        }
        match instr {
            Instr::Draw { x, y, height } => {
                let n = height as usize;
                let base = self.i as usize;
                if base + n > 4096 {
                    return Err(StepError::MemoryRange);
                }
                let npc = match self.checked_pc(2) {
                    Ok(p) => p,
                    Err(e) => { return Err(e); },
                };
                let r0 = (self.rv(y) % 32) as usize;
                let c0 = (self.rv(x) % 64) as usize;
                let ghost s0 = self@;
                let ghost bi = base as int;
                let ghost r0i = r0 as int;
                let ghost c0i = c0 as int;
                let mut collision = false;
                let mut t: usize = 0;
                while t < 8 * n
                    invariant
                        s0.wf(),
                        s0 == old(self)@,
                        self@.memory == s0.memory,
                        self@.regs == s0.regs,
                        self@.stack == s0.stack,
                        self.pc == s0.pc,
                        self.sp == s0.sp,
                        self.i == s0.i,
                        self.delay == s0.delay,
                        self.sound == s0.sound,
                        base == s0.i,
                        bi == base as int,
                        r0i == r0 as int,
                        c0i == c0 as int,
                        n <= 15,
                        base + n <= 4096,
                        r0i == s0.regs[y.index()] as int % 32,
                        c0i == s0.regs[x.index()] as int % 64,
                        r0 < 32,
                        c0 < 64,
                        t <= 8 * n,
                        self.screen@.len() == 2048,
                        forall|k: int|
                            0 <= k < 2048 ==> self.screen@[k] == (s0.screen[k] != draw_hit_upto(
                                s0.memory,
                                bi,
                                r0i,
                                c0i,
                                t as int,
                                k,
                            )),
                        collision == draw_collision_upto(s0.screen, s0.memory, bi, r0i, c0i, t as int),
                    decreases 8 * n - t,
                {
                    let ghost ti = t as int;
                    proof {
                        vstd::arithmetic::div_mod::lemma_fundamental_div_mod(ti, 8);
                    }
                    let row = r0 + t / 8;
                    let col = c0 + t % 8;
                    if row < 32 && col < 64 {
                        let byte = self.memory[base + t / 8];
                        let sh = (7 - (t % 8)) as u8;
                        let pixel = ((byte >> sh) & 1) == 1;
                        let ghost pos = pix_pos(r0i, c0i, ti);
                        proof {
                            assert(pix_visible(r0i, c0i, ti));
                            assert(pixel == sprite_on(s0.memory, bi, ti));
                            assert(pos == row * 64 + col);
                            assert(0 <= pos < 2048);
                            assert(!draw_hit_upto(s0.memory, bi, r0i, c0i, ti, pos)) by {
                                if draw_hit_upto(s0.memory, bi, r0i, c0i, ti, pos) {
                                    let u = choose|u: int|
                                        0 <= u < ti && pix_visible(r0i, c0i, u) && sprite_on(
                                            s0.memory,
                                            bi,
                                            u,
                                        ) && pix_pos(r0i, c0i, u) == pos;
                                    lemma_pix_pos_injective(r0i, c0i, u, ti);
                                }
                            }
                        }
                        let ghost prev = self.screen@;
                        let coll_bit = self.screen.draw_bit(row as u16, col as u16, pixel);
                        collision = collision || coll_bit;
                        proof {
                            assert(prev[pos] == s0.screen[pos]);
                            assert forall|k: int| 0 <= k < 2048 implies self.screen@[k] == (
                            s0.screen[k] != draw_hit_upto(
                                s0.memory,
                                bi,
                                r0i,
                                c0i,
                                ti + 1,
                                k,
                            )) by {
                                if k == pos {
                                    if pixel {
                                        assert(draw_hit_upto(s0.memory, bi, r0i, c0i, ti + 1, pos));
                                    } else {
                                        assert(!draw_hit_upto(s0.memory, bi, r0i, c0i, ti + 1, pos))
                                            by {
                                            if draw_hit_upto(s0.memory, bi, r0i, c0i, ti + 1, pos) {
                                                let u = choose|u: int|
                                                    0 <= u < ti + 1 && pix_visible(r0i, c0i, u)
                                                        && sprite_on(s0.memory, bi, u) && pix_pos(
                                                        r0i,
                                                        c0i,
                                                        u,
                                                    ) == pos;
                                                if u < ti {
                                                    assert(draw_hit_upto(
                                                        s0.memory,
                                                        bi,
                                                        r0i,
                                                        c0i,
                                                        ti,
                                                        pos,
                                                    ));
                                                }
                                            }
                                        }
                                    }
                                } else {
                                    assert(draw_hit_upto(s0.memory, bi, r0i, c0i, ti + 1, k)
                                        == draw_hit_upto(s0.memory, bi, r0i, c0i, ti, k)) by {
                                        if draw_hit_upto(s0.memory, bi, r0i, c0i, ti + 1, k) {
                                            let u = choose|u: int|
                                                0 <= u < ti + 1 && pix_visible(r0i, c0i, u)
                                                    && sprite_on(s0.memory, bi, u) && pix_pos(
                                                    r0i,
                                                    c0i,
                                                    u,
                                                ) == k;
                                            assert(u != ti);
                                            assert(draw_hit_upto(s0.memory, bi, r0i, c0i, ti, k));
                                        }
                                        if draw_hit_upto(s0.memory, bi, r0i, c0i, ti, k) {
                                            let u = choose|u: int|
                                                0 <= u < ti && pix_visible(r0i, c0i, u)
                                                    && sprite_on(s0.memory, bi, u) && pix_pos(
                                                    r0i,
                                                    c0i,
                                                    u,
                                                ) == k;
                                            assert(draw_hit_upto(s0.memory, bi, r0i, c0i, ti + 1, k));
                                        }
                                    }
                                }
                            }
                            assert(collision == draw_collision_upto(
                                s0.screen,
                                s0.memory,
                                bi,
                                r0i,
                                c0i,
                                ti + 1,
                            )) by {
                                if collision {
                                    if coll_bit {
                                        assert(s0.screen[pos] && pixel);
                                        assert(draw_collision_upto(
                                            s0.screen,
                                            s0.memory,
                                            bi,
                                            r0i,
                                            c0i,
                                            ti + 1,
                                        ));
                                    } else {
                                        let u = choose|u: int|
                                            0 <= u < ti && pix_visible(r0i, c0i, u) && sprite_on(
                                                s0.memory,
                                                bi,
                                                u,
                                            ) && s0.screen[pix_pos(r0i, c0i, u)];
                                        assert(draw_collision_upto(
                                            s0.screen,
                                            s0.memory,
                                            bi,
                                            r0i,
                                            c0i,
                                            ti + 1,
                                        ));
                                    }
                                }
                                if draw_collision_upto(s0.screen, s0.memory, bi, r0i, c0i, ti + 1) {
                                    let u = choose|u: int|
                                        0 <= u < ti + 1 && pix_visible(r0i, c0i, u) && sprite_on(
                                            s0.memory,
                                            bi,
                                            u,
                                        ) && s0.screen[pix_pos(r0i, c0i, u)];
                                    if u < ti {
                                        assert(draw_collision_upto(
                                            s0.screen,
                                            s0.memory,
                                            bi,
                                            r0i,
                                            c0i,
                                            ti,
                                        ));
                                    } else {
                                        assert(s0.screen[pos] && pixel);
                                    }
                                }
                            }
                        }
                    } else {
                        proof {
                            assert(!pix_visible(r0i, c0i, ti));
                            assert forall|k: int| 0 <= k < 2048 implies self.screen@[k] == (
                            s0.screen[k] != draw_hit_upto(
                                s0.memory,
                                bi,
                                r0i,
                                c0i,
                                ti + 1,
                                k,
                            )) by {
                                assert(draw_hit_upto(s0.memory, bi, r0i, c0i, ti + 1, k)
                                    == draw_hit_upto(s0.memory, bi, r0i, c0i, ti, k)) by {
                                    if draw_hit_upto(s0.memory, bi, r0i, c0i, ti + 1, k) {
                                        let u = choose|u: int|
                                            0 <= u < ti + 1 && pix_visible(r0i, c0i, u)
                                                && sprite_on(s0.memory, bi, u) && pix_pos(
                                                r0i,
                                                c0i,
                                                u,
                                            ) == k;
                                        assert(u != ti);
                                        assert(draw_hit_upto(s0.memory, bi, r0i, c0i, ti, k));
                                    }
                                    if draw_hit_upto(s0.memory, bi, r0i, c0i, ti, k) {
                                        let u = choose|u: int|
                                            0 <= u < ti && pix_visible(r0i, c0i, u) && sprite_on(
                                                s0.memory,
                                                bi,
                                                u,
                                            ) && pix_pos(r0i, c0i, u) == k;
                                        assert(draw_hit_upto(s0.memory, bi, r0i, c0i, ti + 1, k));
                                    }
                                }
                            }
                            assert(collision == draw_collision_upto(
                                s0.screen,
                                s0.memory,
                                bi,
                                r0i,
                                c0i,
                                ti + 1,
                            )) by {
                                if collision {
                                    let u = choose|u: int|
                                        0 <= u < ti && pix_visible(r0i, c0i, u) && sprite_on(
                                            s0.memory,
                                            bi,
                                            u,
                                        ) && s0.screen[pix_pos(r0i, c0i, u)];
                                    assert(draw_collision_upto(
                                        s0.screen,
                                        s0.memory,
                                        bi,
                                        r0i,
                                        c0i,
                                        ti + 1,
                                    ));
                                }
                                if draw_collision_upto(s0.screen, s0.memory, bi, r0i, c0i, ti + 1) {
                                    let u = choose|u: int|
                                        0 <= u < ti + 1 && pix_visible(r0i, c0i, u) && sprite_on(
                                            s0.memory,
                                            bi,
                                            u,
                                        ) && s0.screen[pix_pos(r0i, c0i, u)];
                                    assert(u != ti);
                                    assert(draw_collision_upto(s0.screen, s0.memory, bi, r0i, c0i, ti));
                                }
                            }
                        }
                    }
                    t = t + 1;
                }
                proof {
                    assert(self.screen@ =~= draw_screen(s0.screen, s0.memory, bi, height as int, r0i, c0i));
                    assert(collision == draw_collision(s0.screen, s0.memory, bi, height as int, r0i, c0i));
                }
                let flag: u8 = if collision { 1 } else { 0 };
                self.set_reg(Register::VF, flag);
                self.pc = npc;
                Ok(())
            },
            _ => {
                proof {
                    assert(false);
                }
                Err(StepError::BadInstruction)
            },
        }
    }

    /// Runs one fetch-decode-execute cycle, drawing from the given random
    /// byte.  On failure the machine is unchanged and the error says why.
    pub fn run_instr_seeded(&mut self, rand: u8) -> (r: Result<(), StepError>)
        requires
            old(self)@.wf(),
        ensures
            final(self)@.wf(),
            r is Ok ==> spec_step(old(self)@, rand) == Ok::<Chip8View, StepError>(final(self)@),
            r matches Err(e) ==> spec_step(old(self)@, rand) == Err::<Chip8View, StepError>(e)
                && final(self)@ == old(self)@,
    {
        let instr = self.read_instr();
        proof {
            reveal(spec_step);
            assert(spec_step(old(self)@, rand) == spec_exec_instr(old(self)@, instr, rand));
        }
        match instr {
            Instr::System { .. } => self.exec_flow(instr, rand),
            Instr::Clear => self.exec_flow(instr, rand),
            Instr::Ret => self.exec_flow(instr, rand),
            Instr::Goto { .. } => self.exec_flow(instr, rand),
            Instr::Call { .. } => self.exec_flow(instr, rand),
            Instr::SkipEq { .. } => self.exec_skip(instr, rand),
            Instr::SkipNEq { .. } => self.exec_skip(instr, rand),
            Instr::SkipEqV { .. } => self.exec_skip(instr, rand),
            Instr::SkipNEqV { .. } => self.exec_skip(instr, rand),
            Instr::SetReg { .. } => self.exec_alu_move(instr, rand),
            Instr::Incr { .. } => self.exec_alu_move(instr, rand),
            Instr::Copy { .. } => self.exec_alu_move(instr, rand),
            Instr::BitOr { .. } => self.exec_alu_move(instr, rand),
            Instr::BitAnd { .. } => self.exec_alu_move(instr, rand),
            Instr::BitXOr { .. } => self.exec_alu_move(instr, rand),
            Instr::Add { .. } => self.exec_alu_arith(instr, rand),
            Instr::Sub { .. } => self.exec_alu_arith(instr, rand),
            Instr::ShiftR { .. } => self.exec_alu_arith(instr, rand),
            Instr::Lt { .. } => self.exec_alu_arith(instr, rand),
            Instr::ShiftL { .. } => self.exec_alu_arith(instr, rand),
            Instr::SetI { .. } => self.exec_misc(instr, rand),
            Instr::Jump { .. } => self.exec_misc(instr, rand),
            Instr::Rand { .. } => self.exec_misc(instr, rand),
            Instr::IncrI { .. } => self.exec_misc(instr, rand),
            Instr::SpriteAddr { .. } => self.exec_misc(instr, rand),
            Instr::Draw { .. } => self.exec_draw(instr, rand),
            Instr::StoreBCD { .. } => self.exec_bcd(instr, rand),
            Instr::RegDump { .. } => self.exec_reg_dump(instr, rand),
            Instr::RegLoad { .. } => self.exec_reg_load(instr, rand),
            Instr::Pressed { .. } => self.exec_bad(instr, rand),
            Instr::NotPressed { .. } => self.exec_bad(instr, rand),
            Instr::GetDelay { .. } => self.exec_bad(instr, rand),
            Instr::LoadKey { .. } => self.exec_bad(instr, rand),
            Instr::SetDelayTimer { .. } => self.exec_bad(instr, rand),
            Instr::SetSoundTimer { .. } => self.exec_bad(instr, rand),
            Instr::Data(_, _, _, _) => self.exec_bad(instr, rand),
        }
    }

    /// Runs one fetch-decode-execute cycle, drawing `Rand`'s byte from the
    /// thread-local random source.  Some byte explains the outcome; every
    /// other effect of the cycle is independent of it.
    pub fn run_instr(&mut self) -> (r: Result<(), StepError>)
        requires
            old(self)@.wf(),
        ensures
            final(self)@.wf(),
            exists|b: u8|
                match r {
                    Ok(()) => spec_step(old(self)@, b) == Ok::<Chip8View, StepError>(final(self)@),
                    Err(e) => spec_step(old(self)@, b) == Err::<Chip8View, StepError>(e)
                        && final(self)@ == old(self)@,
                },
    {
        let b = random_byte();
        let r = self.run_instr_seeded(b);
        proof {
            assert(match r {
                Ok(()) => spec_step(old(self)@, b) == Ok::<Chip8View, StepError>(self@),
                Err(e) => spec_step(old(self)@, b) == Err::<Chip8View, StepError>(e)
                    && self@ == old(self)@,
            });
        }
        r
    }
}

} // verus!
