//! The machine state: memory, data registers, index register, program
//! counter, call stack, timers and framebuffer, together with its
//! mathematical model.

use vstd::prelude::*;

verus! {

/// Failures reported when a program image is loaded.
#[derive(PartialEq, Eq, Structural, Clone, Copy, Debug)]
pub enum LoadError {
    /// The image has more bytes than the memory above the reserved area holds.
    TooLarge { len: usize },
}

/// Failures reported by a single execution step.  The core never panics: each
/// of these is returned as a value.
#[derive(PartialEq, Eq, Structural, Clone, Copy, Debug)]
pub enum StepError {
    /// `Call` was executed with all sixteen stack slots in use.
    StackOverflow,
    /// `Ret` was executed with an empty call stack.
    StackUnderflow,
    /// A `Data` byte pair or an opcode outside the pure core (keypad and
    /// timer instructions) was executed.
    BadInstruction,
    /// A memory access or a program-counter target fell outside the valid
    /// range.
    MemoryRange,
}

/// Copies a vector of plain values element by element.
pub fn clone_vec<T: Copy>(v: &Vec<T>) -> (r: Vec<T>)
    ensures
        r@ == v@,
{
    let mut r: Vec<T> = Vec::new();
    let mut k: usize = 0;
    while k < v.len()
        invariant
            k <= v.len(),
            r@ == v@.subrange(0, k as int),
        decreases v.len() - k,
    {
        r.push(v[k]);
        proof {
            assert(r@ =~= v@.subrange(0, k + 1));
        }
        k = k + 1;
    }
    proof {
        assert(v@.subrange(0, v@.len() as int) =~= v@);
    }
    r
}

/// A vector holding `n` copies of `val`.
pub fn filled_vec<T: Copy>(val: T, n: usize) -> (r: Vec<T>)
    ensures
        r@ == Seq::new(n as nat, |k: int| val),
{
    let mut r: Vec<T> = Vec::new();
    let mut k: usize = 0;
    while k < n
        invariant
            k <= n,
            r@ == Seq::new(k as nat, |j: int| val),
        decreases n - k,
    {
        r.push(val);
        proof {
            assert(r@ =~= Seq::new((k + 1) as nat, |j: int| val));
        }
        k = k + 1;
    }
    r
}

/// The 64x32 monochrome framebuffer: one bit per pixel, row-major.
pub struct Screen {
    /// Pixel at `(row, col)` sits at index `row * 64 + col`.
    pub bits: Vec<bool>,
}

impl View for Screen {
    type V = Seq<bool>;

    open spec fn view(&self) -> Seq<bool> {
        self.bits@
    }
}

impl Screen {
    pub const NROWS: usize = 32;

    pub const NCOLS: usize = 64;

    pub open spec fn wf(self) -> bool {
        self@.len() == 2048
    }

    /// A screen with every pixel off.
    pub fn new() -> (r: Screen)
        ensures
            r@ == Seq::new(2048, |k: int| false),
            r.wf(),
    {
        Screen { bits: filled_vec(false, 2048) }
    }

    /// The pixel at `(row, col)`.
    pub fn get(&self, row: usize, col: usize) -> (b: bool)
        requires
            self.wf(),
            row < 32,
            col < 64,
        ensures
            b == self@[row * 64 + col],
    {
        self.bits[row * 64 + col]
    }

    /// XORs the pixel at `(row, col)` with `b`; reports true exactly when a
    /// lit pixel was turned off.
    pub fn draw_bit(&mut self, row: u16, col: u16, b: bool) -> (collision: bool)
        requires
            old(self).wf(),
            row < 32,
            col < 64,
        ensures
            final(self)@ == old(self)@.update(row * 64 + col, old(self)@[row * 64 + col] != b),
            collision == (old(self)@[row * 64 + col] && b),
            final(self).wf(),
    {
        let idx: usize = (row as usize) * 64 + (col as usize);
        let old_bit = self.bits[idx];
        let new_bit = old_bit != b;
        self.bits.set(idx, new_bit);
        old_bit && !new_bit
    }
}

impl Clone for Screen {
    fn clone(&self) -> (r: Self)
        ensures
            r@ == self@,
    {
        Screen { bits: clone_vec(&self.bits) }
    }
}

/// The mathematical model of a machine state.
#[verifier::ext_equal]
pub ghost struct Chip8View {
    pub memory: Seq<u8>,
    pub i: u16,
    pub pc: u16,
    pub sp: u8,
    pub delay: u8,
    pub sound: u8,
    pub stack: Seq<u16>,
    pub regs: Seq<u8>,
    pub screen: Seq<bool>,
}

/// A legal resting place for the program counter: even, past the reserved
/// interpreter area, and leaving room for the second instruction byte.
pub open spec fn valid_pc(pc: int) -> bool {
    0x200 <= pc <= 0xFFE && pc % 2 == 0
}

impl Chip8View {
    /// The state invariant that holds at every instruction boundary.
    pub open spec fn wf(self) -> bool {
        &&& self.memory.len() == 4096
        &&& self.stack.len() == 16
        &&& self.regs.len() == 16
        &&& self.screen.len() == 2048
        &&& valid_pc(self.pc as int)
        &&& self.sp <= 16
        &&& self.i <= 0xFFF
    }
}

/// The state a machine is created in: zero everywhere, program counter at the
/// start of the program area.
pub open spec fn initial_view() -> Chip8View {
    Chip8View {
        memory: Seq::new(4096, |k: int| 0u8),
        i: 0,
        pc: 0x200,
        sp: 0,
        delay: 0,
        sound: 0,
        stack: Seq::new(16, |k: int| 0u16),
        regs: Seq::new(16, |k: int| 0u8),
        screen: Seq::new(2048, |k: int| false),
    }
}

/// The state of a CHIP-8 machine.
pub struct Chip8 {
    /// 4096 bytes; addresses below 0x200 are the reserved interpreter area.
    pub memory: Vec<u8>,
    /// The index register; only its low 12 bits are ever written.
    pub i: u16,
    /// The program counter.
    pub pc: u16,
    /// The stack pointer: the number of call-stack slots in use.
    pub sp: u8,
    /// The delay timer (modeled; not decremented by the core).
    pub delay: u8,
    /// The sound timer (modeled; not decremented by the core).
    pub sound: u8,
    /// The sixteen-slot call stack; only the first `sp` slots are meaningful.
    pub stack: Vec<u16>,
    /// The data registers `V0` through `VF`.
    pub registers: Vec<u8>,
    /// The framebuffer.
    pub screen: Screen,
}

impl View for Chip8 {
    type V = Chip8View;

    open spec fn view(&self) -> Chip8View {
        Chip8View {
            memory: self.memory@,
            i: self.i,
            pc: self.pc,
            sp: self.sp,
            delay: self.delay,
            sound: self.sound,
            stack: self.stack@,
            regs: self.registers@,
            screen: self.screen@,
        }
    }
}

impl Chip8 {
    pub const MEM_SIZE: usize = 4096;

    /// Program images are loaded starting here.
    pub const CODE_START: usize = 0x200;

    /// A machine in the initial state.
    pub fn new() -> (r: Chip8)
        ensures
            r@ == initial_view(),
            r@.wf(),
    {
        let r = Chip8 {
            memory: filled_vec(0u8, 4096),
            i: 0,
            pc: 0x200,
            sp: 0,
            delay: 0,
            sound: 0,
            stack: filled_vec(0u16, 16),
            registers: filled_vec(0u8, 16),
            screen: Screen::new(),
        };
        proof {
            assert(r@ =~= initial_view());
        }
        r
    }

    /// Writes a program image into memory starting at the program area.
    /// Images longer than the 3584 bytes above the reserved area are
    /// rejected, and the machine is left untouched.
    pub fn load_memory(&mut self, bytes: &Vec<u8>) -> (r: Result<(), LoadError>)
        requires
            old(self)@.wf(),
        ensures
            final(self)@.wf(),
            bytes.len() > 3584 ==> r == Err::<(), LoadError>(LoadError::TooLarge { len: bytes.len() })
                && final(self)@ == old(self)@,
            bytes.len() <= 3584 ==> r is Ok && final(self)@ == (Chip8View {
                memory: Seq::new(4096, |k: int|
                    if 0x200 <= k < 0x200 + bytes.len() {
                        bytes@[k - 0x200]
                    } else {
                        old(self)@.memory[k]
                    }),
                ..old(self)@
            }),
    {
        if bytes.len() > 3584 {
            return Err(LoadError::TooLarge { len: bytes.len() });
        }
        let mut k: usize = 0;
        while k < bytes.len()
            invariant
                old(self)@.wf(),
                bytes.len() <= 3584,
                k <= bytes.len(),
                self.memory.len() == 4096,
                forall|j: int| 0 <= j < k ==> self.memory@[0x200 + j] == bytes@[j],
                forall|j: int|
                    0 <= j < 4096 && !(0x200 <= j < 0x200 + k) ==> self.memory@[j] == old(self)@.memory[j],
                self.i == old(self).i,
                self.pc == old(self).pc,
                self.sp == old(self).sp,
                self.delay == old(self).delay,
                self.sound == old(self).sound,
                self.stack@ == old(self)@.stack,
                self.registers@ == old(self)@.regs,
                self.screen@ == old(self)@.screen,
            decreases bytes.len() - k,
        {
            self.memory.set(0x200 + k, bytes[k]);
            k = k + 1;
        }
        proof {
            assert(self@ =~= (Chip8View {
                memory: Seq::new(4096, |j: int|
                    if 0x200 <= j < 0x200 + bytes.len() {
                        bytes@[j - 0x200]
                    } else {
                        old(self)@.memory[j]
                    }),
                ..old(self)@
            }));
        }
        Ok(())
    }
}

impl Clone for Chip8 {
    fn clone(&self) -> (r: Self)
        ensures
            r@ == self@,
    {
        let r = Chip8 {
            memory: clone_vec(&self.memory),
            i: self.i,
            pc: self.pc,
            sp: self.sp,
            delay: self.delay,
            sound: self.sound,
            stack: clone_vec(&self.stack),
            registers: clone_vec(&self.registers),
            screen: self.screen.clone(),
        };
        proof {
            assert(r@ =~= self@);
        }
        r
    }
}

} // verus!
