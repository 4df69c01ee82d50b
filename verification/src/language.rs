//! The CHIP-8 instruction set: raw instructions, a total decoder, an encoder,
//! and the data register names.

use vstd::prelude::*;
use crate::base::{Nibble, U12, UNibble};

verus! {

/// A 12-bit memory address.
#[derive(PartialEq, Eq, Structural, Clone, Copy, Debug)]
pub struct Address(pub u16);

impl Address {
    pub open spec fn wf(self) -> bool {
        self.0 <= 0xFFF
    }

    /// Packs three nibbles, high first, into an address.
    pub fn from_nibbles(h: UNibble, m: UNibble, l: UNibble) -> (r: Address)
        requires
            h <= 15,
            m <= 15,
            l <= 15,
        ensures
            r.0 == h * 256 + m * 16 + l,
            r.wf(),
    {
        Address((h as u16) * 256 + (m as u16) * 16 + (l as u16))
    }
}

/// A data register, `V0` through `VF`.
#[derive(PartialEq, Eq, Structural, Clone, Copy, Debug)]
pub enum Register {
    V0,
    V1,
    V2,
    V3,
    V4,
    V5,
    V6,
    V7,
    V8,
    V9,
    VA,
    VB,
    VC,
    VD,
    VE,
    VF,
}

/// The register named by a nibble; values above 15 alias `VF` and never arise
/// from a checked nibble.
pub open spec fn reg_of(n: u8) -> Register {
    match n {
        0 => Register::V0,
        1 => Register::V1,
        2 => Register::V2,
        3 => Register::V3,
        4 => Register::V4,
        5 => Register::V5,
        6 => Register::V6,
        7 => Register::V7,
        8 => Register::V8,
        9 => Register::V9,
        10 => Register::VA,
        11 => Register::VB,
        12 => Register::VC,
        13 => Register::VD,
        14 => Register::VE,
        _ => Register::VF,
    }
}

impl Register {
    /// The index of the register in the register file.
    pub open spec fn index(self) -> int {
        match self {
            Register::V0 => 0,
            Register::V1 => 1,
            Register::V2 => 2,
            Register::V3 => 3,
            Register::V4 => 4,
            Register::V5 => 5,
            Register::V6 => 6,
            Register::V7 => 7,
            Register::V8 => 8,
            Register::V9 => 9,
            Register::VA => 10,
            Register::VB => 11,
            Register::VC => 12,
            Register::VD => 13,
            Register::VE => 14,
            Register::VF => 15,
        }
    }

    pub fn as_usize(&self) -> (r: usize)
        ensures
            r == self.index(),
            r < 16,
    {
        match self {
            Register::V0 => 0,
            Register::V1 => 1,
            Register::V2 => 2,
            Register::V3 => 3,
            Register::V4 => 4,
            Register::V5 => 5,
            Register::V6 => 6,
            Register::V7 => 7,
            Register::V8 => 8,
            Register::V9 => 9,
            Register::VA => 10,
            Register::VB => 11,
            Register::VC => 12,
            Register::VD => 13,
            Register::VE => 14,
            Register::VF => 15,
        }
    }

    pub fn from_nibble(n: Nibble) -> (r: Register)
        requires
            n.wf(),
        ensures
            r == reg_of(n.0),
    {
        Self::from_index(n.0)
    }

    pub fn from_index(n: u8) -> (r: Register)
        requires
            n <= 15,
        ensures
            r == reg_of(n),
    {
        match n {
            0 => Register::V0,
            1 => Register::V1,
            2 => Register::V2,
            3 => Register::V3,
            4 => Register::V4,
            5 => Register::V5,
            6 => Register::V6,
            7 => Register::V7,
            8 => Register::V8,
            9 => Register::V9,
            10 => Register::VA,
            11 => Register::VB,
            12 => Register::VC,
            13 => Register::VD,
            14 => Register::VE,
            _ => Register::VF,
        }
    }
}

/// Naming a register and taking its index are inverse to each other.
pub proof fn lemma_reg_of_index(n: u8)
    requires
        n <= 15,
    ensures
        reg_of(n).index() == n,
{
}

/// A raw instruction: the four nibbles of a big-endian byte pair.
#[derive(PartialEq, Eq, Debug)]
pub struct RawInstr {
    pub nibbles: [Nibble; 4],
}

impl Clone for RawInstr {
    fn clone(&self) -> (r: Self)
        ensures
            r.nibbles@ == self.nibbles@,
    {
        RawInstr { nibbles: [self.nibbles[0], self.nibbles[1], self.nibbles[2], self.nibbles[3]] }
    }
}

impl RawInstr {
    pub open spec fn wf(self) -> bool {
        forall|i: int| 0 <= i < 4 ==> self.nibbles[i].wf()
    }

    pub fn from_bytes(bytes: [u8; 2]) -> (r: RawInstr)
        ensures
            r.nibbles[0].0 == bytes[0] / 16,
            r.nibbles[1].0 == bytes[0] % 16,
            r.nibbles[2].0 == bytes[1] / 16,
            r.nibbles[3].0 == bytes[1] % 16,
            r.wf(),
    {
        let hi = Nibble::byte_to_nibbles(bytes[0]);
        let lo = Nibble::byte_to_nibbles(bytes[1]);
        RawInstr { nibbles: [hi[0], hi[1], lo[0], lo[1]] }
    }
}

/// A decoded CHIP-8 instruction.
#[derive(PartialEq, Eq, Structural, Clone, Copy, Debug)]
pub enum Instr {
    /// Calls a machine code routine; obsolete and executed as a no-op.
    System { addr: Address },
    /// Clears the screen.
    Clear,
    /// Returns from a subroutine.
    Ret,
    /// Jumps to an address.
    Goto { addr: Address },
    /// Calls a subroutine.
    Call { addr: Address },
    /// Skips the next instruction if `r == c`.
    SkipEq { r: Register, c: u8 },
    /// Skips the next instruction if `r != c`.
    SkipNEq { r: Register, c: u8 },
    /// Skips the next instruction if `r == s`.
    SkipEqV { r: Register, s: Register },
    /// `r := a`
    SetReg { r: Register, a: u8 },
    /// `r := r + a` (wrapping; `VF` untouched)
    Incr { r: Register, a: u8 },
    /// `r := s`
    Copy { r: Register, s: Register },
    /// `r := r | s`
    BitOr { r: Register, s: Register },
    /// `r := r & s`
    BitAnd { r: Register, s: Register },
    /// `r := r ^ s`
    BitXOr { r: Register, s: Register },
    /// `r := r + s`; `VF` receives the carry.
    Add { r: Register, s: Register },
    /// `r := r - s`; `VF` receives NOT borrow.
    Sub { r: Register, s: Register },
    /// `VF` receives the low bit of `r`; then `r := r >> 1`.
    ShiftR { r: Register },
    /// `r := s - r`; `VF` receives NOT borrow.
    Lt { r: Register, s: Register },
    /// `VF` receives the high bit of `r`; then `r := r << 1`.
    ShiftL { r: Register },
    /// Skips the next instruction if `r != s`.
    SkipNEqV { r: Register, s: Register },
    /// `I := n`
    SetI { n: U12 },
    /// `PC := V0 + n`
    Jump { n: U12 },
    /// `r := random byte AND n`
    Rand { r: Register, n: u8 },
    /// Draws a sprite of `height` rows at `(V[x], V[y])`; `VF` reports collision.
    Draw { x: Register, y: Register, height: u8 },
    /// Skips the next instruction if the key in `r` is pressed (unimplemented).
    Pressed { r: Register },
    /// Skips the next instruction if the key in `r` is not pressed (unimplemented).
    NotPressed { r: Register },
    /// `r := delay timer` (unimplemented).
    GetDelay { r: Register },
    /// `r := next key press` (unimplemented).
    LoadKey { r: Register },
    /// `delay timer := r` (unimplemented).
    SetDelayTimer { r: Register },
    /// `sound timer := r` (unimplemented).
    SetSoundTimer { r: Register },
    /// `I := I + r`
    IncrI { r: Register },
    /// `I := address of the built-in glyph for the low nibble of r`
    SpriteAddr { r: Register },
    /// Writes the decimal digits of `r` to `mem[I..I+3]`.
    StoreBCD { r: Register },
    /// `mem[I + i] := V[i]` for `i` in `0..=x`.
    RegDump { x: Nibble },
    /// `V[i] := mem[I + i]` for `i` in `0..=x`.
    RegLoad { x: Nibble },
    /// An undecodable byte pair, kept as its four nibbles.
    Data(UNibble, UNibble, UNibble, UNibble),
}

/// The address held in three nibbles.
pub open spec fn spec_addr(b: u8, c: u8, d: u8) -> u16 {
    (b * 256 + c * 16 + d) as u16
}

/// The byte held in two nibbles.
pub open spec fn spec_byte(c: u8, d: u8) -> u8 {
    (c * 16 + d) as u8
}

/// Decodes four nibbles into an instruction.  Total: byte pairs that match no
/// documented pattern decode to `Data`.
pub open spec fn spec_decode(a: u8, b: u8, c: u8, d: u8) -> Instr {
    if a == 0 && b == 0 && c == 0xE && d == 0 {
        Instr::Clear
    } else if a == 0 && b == 0 && c == 0xE && d == 0xE {
        Instr::Ret
    } else if a == 0 {
        Instr::System { addr: Address(spec_addr(b, c, d)) }
    } else if a == 1 {
        Instr::Goto { addr: Address(spec_addr(b, c, d)) }
    } else if a == 2 {
        Instr::Call { addr: Address(spec_addr(b, c, d)) }
    } else if a == 3 {
        Instr::SkipEq { r: reg_of(b), c: spec_byte(c, d) }
    } else if a == 4 {
        Instr::SkipNEq { r: reg_of(b), c: spec_byte(c, d) }
    } else if a == 5 && d == 0 {
        Instr::SkipEqV { r: reg_of(b), s: reg_of(c) }
    } else if a == 6 {
        Instr::SetReg { r: reg_of(b), a: spec_byte(c, d) }
    } else if a == 7 {
        Instr::Incr { r: reg_of(b), a: spec_byte(c, d) }
    } else if a == 8 && d == 0 {
        Instr::Copy { r: reg_of(b), s: reg_of(c) }
    } else if a == 8 && d == 1 {
        Instr::BitOr { r: reg_of(b), s: reg_of(c) }
    } else if a == 8 && d == 2 {
        Instr::BitAnd { r: reg_of(b), s: reg_of(c) }
    } else if a == 8 && d == 3 {
        Instr::BitXOr { r: reg_of(b), s: reg_of(c) }
    } else if a == 8 && d == 4 {
        Instr::Add { r: reg_of(b), s: reg_of(c) }
    } else if a == 8 && d == 5 {
        Instr::Sub { r: reg_of(b), s: reg_of(c) }
    } else if a == 8 && d == 6 {
        Instr::ShiftR { r: reg_of(b) }
    } else if a == 8 && d == 7 {
        Instr::Lt { r: reg_of(b), s: reg_of(c) }
    } else if a == 8 && d == 0xE {
        Instr::ShiftL { r: reg_of(b) }
    } else if a == 9 && d == 0 {
        Instr::SkipNEqV { r: reg_of(b), s: reg_of(c) }
    } else if a == 0xA {
        Instr::SetI { n: U12(spec_addr(b, c, d)) }
    } else if a == 0xB {
        Instr::Jump { n: U12(spec_addr(b, c, d)) }
    } else if a == 0xC {
        Instr::Rand { r: reg_of(b), n: spec_byte(c, d) }
    } else if a == 0xD {
        Instr::Draw { x: reg_of(b), y: reg_of(c), height: d }
    } else if a == 0xE && c == 9 && d == 0xE {
        Instr::Pressed { r: reg_of(b) }
    } else if a == 0xE && c == 0xA && d == 1 {
        Instr::NotPressed { r: reg_of(b) }
    } else if a == 0xF && c == 0 && d == 7 {
        Instr::GetDelay { r: reg_of(b) }
    } else if a == 0xF && c == 0 && d == 0xA {
        Instr::LoadKey { r: reg_of(b) }
    } else if a == 0xF && c == 1 && d == 5 {
        Instr::SetDelayTimer { r: reg_of(b) }
    } else if a == 0xF && c == 1 && d == 8 {
        Instr::SetSoundTimer { r: reg_of(b) }
    } else if a == 0xF && c == 1 && d == 0xE {
        Instr::IncrI { r: reg_of(b) }
    } else if a == 0xF && c == 2 && d == 9 {
        Instr::SpriteAddr { r: reg_of(b) }
    } else if a == 0xF && c == 3 && d == 3 {
        Instr::StoreBCD { r: reg_of(b) }
    } else if a == 0xF && c == 5 && d == 5 {
        Instr::RegDump { x: Nibble(b) }
    } else if a == 0xF && c == 6 && d == 5 {
        Instr::RegLoad { x: Nibble(b) }
    } else {
        Instr::Data(a, b, c, d)
    }
}

impl RawInstr {
    /// Decodes the raw nibbles.  Every raw instruction decodes to some
    /// instruction; patterns that match no documented opcode yield `Data`.
    pub fn into_instr(self) -> (i: Instr)
        requires
            self.wf(),
        ensures
            i == spec_decode(self.nibbles[0].0, self.nibbles[1].0, self.nibbles[2].0, self.nibbles[3].0),
    {
        let a = self.nibbles[0].0;
        let b = self.nibbles[1].0;
        let c = self.nibbles[2].0;
        let d = self.nibbles[3].0;
        if a == 0 && b == 0 && c == 0xE && d == 0 {
            Instr::Clear
        } else if a == 0 && b == 0 && c == 0xE && d == 0xE {
            Instr::Ret
        } else if a == 0 {
            Instr::System { addr: Address::from_nibbles(b, c, d) }
        } else if a == 1 {
            Instr::Goto { addr: Address::from_nibbles(b, c, d) }
        } else if a == 2 {
            Instr::Call { addr: Address::from_nibbles(b, c, d) }
        } else if a == 3 {
            Instr::SkipEq { r: Register::from_index(b), c: c * 16 + d }
        } else if a == 4 {
            Instr::SkipNEq { r: Register::from_index(b), c: c * 16 + d }
        } else if a == 5 && d == 0 {
            Instr::SkipEqV { r: Register::from_index(b), s: Register::from_index(c) }
        } else if a == 6 {
            Instr::SetReg { r: Register::from_index(b), a: c * 16 + d }
        } else if a == 7 {
            Instr::Incr { r: Register::from_index(b), a: c * 16 + d }
        } else if a == 8 && d == 0 {
            Instr::Copy { r: Register::from_index(b), s: Register::from_index(c) }
        } else if a == 8 && d == 1 {
            Instr::BitOr { r: Register::from_index(b), s: Register::from_index(c) }
        } else if a == 8 && d == 2 {
            Instr::BitAnd { r: Register::from_index(b), s: Register::from_index(c) }
        } else if a == 8 && d == 3 {
            Instr::BitXOr { r: Register::from_index(b), s: Register::from_index(c) }
        } else if a == 8 && d == 4 {
            Instr::Add { r: Register::from_index(b), s: Register::from_index(c) }
        } else if a == 8 && d == 5 {
            Instr::Sub { r: Register::from_index(b), s: Register::from_index(c) }
        } else if a == 8 && d == 6 {
            Instr::ShiftR { r: Register::from_index(b) }
        } else if a == 8 && d == 7 {
            Instr::Lt { r: Register::from_index(b), s: Register::from_index(c) }
        } else if a == 8 && d == 0xE {
            Instr::ShiftL { r: Register::from_index(b) }
        } else if a == 9 && d == 0 {
            Instr::SkipNEqV { r: Register::from_index(b), s: Register::from_index(c) }
        } else if a == 0xA {
            let addr = Address::from_nibbles(b, c, d);
            Instr::SetI { n: U12(addr.0) }
        } else if a == 0xB {
            let addr = Address::from_nibbles(b, c, d);
            Instr::Jump { n: U12(addr.0) }
        } else if a == 0xC {
            Instr::Rand { r: Register::from_index(b), n: c * 16 + d }
        } else if a == 0xD {
            Instr::Draw { x: Register::from_index(b), y: Register::from_index(c), height: d }
        } else if a == 0xE && c == 9 && d == 0xE {
            Instr::Pressed { r: Register::from_index(b) }
        } else if a == 0xE && c == 0xA && d == 1 {
            Instr::NotPressed { r: Register::from_index(b) }
        } else if a == 0xF && c == 0 && d == 7 {
            Instr::GetDelay { r: Register::from_index(b) }
        } else if a == 0xF && c == 0 && d == 0xA {
            Instr::LoadKey { r: Register::from_index(b) }
        } else if a == 0xF && c == 1 && d == 5 {
            Instr::SetDelayTimer { r: Register::from_index(b) }
        } else if a == 0xF && c == 1 && d == 8 {
            Instr::SetSoundTimer { r: Register::from_index(b) }
        } else if a == 0xF && c == 1 && d == 0xE {
            Instr::IncrI { r: Register::from_index(b) }
        } else if a == 0xF && c == 2 && d == 9 {
            Instr::SpriteAddr { r: Register::from_index(b) }
        } else if a == 0xF && c == 3 && d == 3 {
            Instr::StoreBCD { r: Register::from_index(b) }
        } else if a == 0xF && c == 5 && d == 5 {
            Instr::RegDump { x: Nibble(b) }
        } else if a == 0xF && c == 6 && d == 5 {
            Instr::RegLoad { x: Nibble(b) }
        } else {
            Instr::Data(a, b, c, d)
        }
    }
}

impl Instr {
    /// True of instructions whose fields fit the widths the encoding gives
    /// them; everything the decoder returns is well formed.
    pub open spec fn wf(self) -> bool {
        match self {
            Instr::System { addr } => addr.wf(),
            Instr::Goto { addr } => addr.wf(),
            Instr::Call { addr } => addr.wf(),
            Instr::SetI { n } => n.wf(),
            Instr::Jump { n } => n.wf(),
            Instr::Draw { x, y, height } => height <= 15,
            Instr::RegDump { x } => x.wf(),
            Instr::RegLoad { x } => x.wf(),
            Instr::Data(a, b, c, d) => a <= 15 && b <= 15 && c <= 15 && d <= 15,
            _ => true,
        }
    }
}

/// Everything the decoder returns is well formed.
pub proof fn lemma_decode_wf(a: u8, b: u8, c: u8, d: u8)
    requires
        a <= 15,
        b <= 15,
        c <= 15,
        d <= 15,
    ensures
        spec_decode(a, b, c, d).wf(),
{
}

/// The nibbles of an instruction's encoding, high first; `None` for `Data`,
/// which stands for byte pairs that are not instructions.
pub open spec fn spec_encode(i: Instr) -> Option<(u8, u8, u8, u8)> {
    match i {
        Instr::Clear => Some((0, 0, 0xE, 0)),
        Instr::Ret => Some((0, 0, 0xE, 0xE)),
        Instr::System { addr } => Some((0, (addr.0 / 256) as u8, ((addr.0 / 16) % 16) as u8, (addr.0 % 16) as u8)),
        Instr::Goto { addr } => Some((1, (addr.0 / 256) as u8, ((addr.0 / 16) % 16) as u8, (addr.0 % 16) as u8)),
        Instr::Call { addr } => Some((2, (addr.0 / 256) as u8, ((addr.0 / 16) % 16) as u8, (addr.0 % 16) as u8)),
        Instr::SkipEq { r, c } => Some((3, r.index() as u8, c / 16, c % 16)),
        Instr::SkipNEq { r, c } => Some((4, r.index() as u8, c / 16, c % 16)),
        Instr::SkipEqV { r, s } => Some((5, r.index() as u8, s.index() as u8, 0)),
        Instr::SetReg { r, a } => Some((6, r.index() as u8, a / 16, a % 16)),
        Instr::Incr { r, a } => Some((7, r.index() as u8, a / 16, a % 16)),
        Instr::Copy { r, s } => Some((8, r.index() as u8, s.index() as u8, 0)),
        Instr::BitOr { r, s } => Some((8, r.index() as u8, s.index() as u8, 1)),
        Instr::BitAnd { r, s } => Some((8, r.index() as u8, s.index() as u8, 2)),
        Instr::BitXOr { r, s } => Some((8, r.index() as u8, s.index() as u8, 3)),
        Instr::Add { r, s } => Some((8, r.index() as u8, s.index() as u8, 4)),
        Instr::Sub { r, s } => Some((8, r.index() as u8, s.index() as u8, 5)),
        Instr::ShiftR { r } => Some((8, r.index() as u8, 0, 6)),
        Instr::Lt { r, s } => Some((8, r.index() as u8, s.index() as u8, 7)),
        Instr::ShiftL { r } => Some((8, r.index() as u8, 0, 0xE)),
        Instr::SkipNEqV { r, s } => Some((9, r.index() as u8, s.index() as u8, 0)),
        Instr::SetI { n } => Some((0xA, (n.0 / 256) as u8, ((n.0 / 16) % 16) as u8, (n.0 % 16) as u8)),
        Instr::Jump { n } => Some((0xB, (n.0 / 256) as u8, ((n.0 / 16) % 16) as u8, (n.0 % 16) as u8)),
        Instr::Rand { r, n } => Some((0xC, r.index() as u8, n / 16, n % 16)),
        Instr::Draw { x, y, height } => Some((0xD, x.index() as u8, y.index() as u8, height)),
        Instr::Pressed { r } => Some((0xE, r.index() as u8, 9, 0xE)),
        Instr::NotPressed { r } => Some((0xE, r.index() as u8, 0xA, 1)),
        Instr::GetDelay { r } => Some((0xF, r.index() as u8, 0, 7)),
        Instr::LoadKey { r } => Some((0xF, r.index() as u8, 0, 0xA)),
        Instr::SetDelayTimer { r } => Some((0xF, r.index() as u8, 1, 5)),
        Instr::SetSoundTimer { r } => Some((0xF, r.index() as u8, 1, 8)),
        Instr::IncrI { r } => Some((0xF, r.index() as u8, 1, 0xE)),
        Instr::SpriteAddr { r } => Some((0xF, r.index() as u8, 2, 9)),
        Instr::StoreBCD { r } => Some((0xF, r.index() as u8, 3, 3)),
        Instr::RegDump { x } => Some((0xF, x.0, 5, 5)),
        Instr::RegLoad { x } => Some((0xF, x.0, 6, 5)),
        Instr::Data(_, _, _, _) => None,
    }
}

impl Instr {
    /// Re-encodes the instruction as a raw instruction; `None` for `Data`.
    pub fn encode(&self) -> (r: Option<RawInstr>)
        requires
            self.wf(),
        ensures
            match spec_encode(*self) {
                Some(t) => {
                    &&& r matches Some(ri)
                    &&& ri.nibbles[0].0 == t.0
                    &&& ri.nibbles[1].0 == t.1
                    &&& ri.nibbles[2].0 == t.2
                    &&& ri.nibbles[3].0 == t.3
                    &&& ri.wf()
                },
                None => r is None,
            },
    {
        match self.encode_nibbles() {
            Some((a, b, c, d)) => Some(Self::raw(a, b, c, d)),
            None => None,
        }
    }

    /// The four nibbles of the encoding, high first.
    fn encode_nibbles(&self) -> (t: Option<(u8, u8, u8, u8)>)
        requires
            self.wf(),
        ensures
            t == spec_encode(*self),
            t matches Some(q) ==> q.0 <= 15 && q.1 <= 15 && q.2 <= 15 && q.3 <= 15,
    {
        match self.encode_low() {
            Some(q) => Some(q),
            None => self.encode_high(),
        }
    }

    /// True of the instructions whose opcode family is below `0x9`.
    pub open spec fn low_family(self) -> bool {
        match self {
            Instr::Clear => true,
            Instr::Ret => true,
            Instr::System { .. } => true,
            Instr::Goto { .. } => true,
            Instr::Call { .. } => true,
            Instr::SkipEq { .. } => true,
            Instr::SkipNEq { .. } => true,
            Instr::SkipEqV { .. } => true,
            Instr::SetReg { .. } => true,
            Instr::Incr { .. } => true,
            Instr::Copy { .. } => true,
            Instr::BitOr { .. } => true,
            Instr::BitAnd { .. } => true,
            Instr::BitXOr { .. } => true,
            Instr::Add { .. } => true,
            Instr::Sub { .. } => true,
            Instr::ShiftR { .. } => true,
            Instr::Lt { .. } => true,
            Instr::ShiftL { .. } => true,
            _ => false,
        }
    }

    #[verifier::rlimit(100)]
    fn encode_low(&self) -> (t: Option<(u8, u8, u8, u8)>)
        requires
            self.wf(),
        ensures
            self.low_family() ==> t == spec_encode(*self),
            !self.low_family() ==> t is None,
            t matches Some(q) ==> q.0 <= 15 && q.1 <= 15 && q.2 <= 15 && q.3 <= 15,
    {
        match self {
            Instr::Clear => Some((0, 0, 0xE, 0)),
            Instr::Ret => Some((0, 0, 0xE, 0xE)),
            Instr::System { addr } => Some(Self::addr_nibbles(0, addr.0)),
            Instr::Goto { addr } => Some(Self::addr_nibbles(1, addr.0)),
            Instr::Call { addr } => Some(Self::addr_nibbles(2, addr.0)),
            Instr::SkipEq { r, c } => Some((3, r.as_usize() as u8, c / 16, c % 16)),
            Instr::SkipNEq { r, c } => Some((4, r.as_usize() as u8, c / 16, c % 16)),
            Instr::SkipEqV { r, s } => Some((5, r.as_usize() as u8, s.as_usize() as u8, 0)),
            Instr::SetReg { r, a } => Some((6, r.as_usize() as u8, a / 16, a % 16)),
            Instr::Incr { r, a } => Some((7, r.as_usize() as u8, a / 16, a % 16)),
            Instr::Copy { r, s } => Some((8, r.as_usize() as u8, s.as_usize() as u8, 0)),
            Instr::BitOr { r, s } => Some((8, r.as_usize() as u8, s.as_usize() as u8, 1)),
            Instr::BitAnd { r, s } => Some((8, r.as_usize() as u8, s.as_usize() as u8, 2)),
            Instr::BitXOr { r, s } => Some((8, r.as_usize() as u8, s.as_usize() as u8, 3)),
            Instr::Add { r, s } => Some((8, r.as_usize() as u8, s.as_usize() as u8, 4)),
            Instr::Sub { r, s } => Some((8, r.as_usize() as u8, s.as_usize() as u8, 5)),
            Instr::ShiftR { r } => Some((8, r.as_usize() as u8, 0, 6)),
            Instr::Lt { r, s } => Some((8, r.as_usize() as u8, s.as_usize() as u8, 7)),
            Instr::ShiftL { r } => Some((8, r.as_usize() as u8, 0, 0xE)),
            _ => None,
        }
    }

    #[verifier::rlimit(100)]
    fn encode_high(&self) -> (t: Option<(u8, u8, u8, u8)>)
        requires
            self.wf(),
            !self.low_family(),
        ensures
            t == spec_encode(*self),
            t matches Some(q) ==> q.0 <= 15 && q.1 <= 15 && q.2 <= 15 && q.3 <= 15,
    {
        match self {
            Instr::SkipNEqV { r, s } => Some((9, r.as_usize() as u8, s.as_usize() as u8, 0)),
            Instr::SetI { n } => Some(Self::addr_nibbles(0xA, n.0)),
            Instr::Jump { n } => Some(Self::addr_nibbles(0xB, n.0)),
            Instr::Rand { r, n } => Some((0xC, r.as_usize() as u8, n / 16, n % 16)),
            Instr::Draw { x, y, height } => Some((0xD, x.as_usize() as u8, y.as_usize() as u8, *height)),
            Instr::Pressed { r } => Some((0xE, r.as_usize() as u8, 9, 0xE)),
            Instr::NotPressed { r } => Some((0xE, r.as_usize() as u8, 0xA, 1)),
            Instr::GetDelay { r } => Some((0xF, r.as_usize() as u8, 0, 7)),
            Instr::LoadKey { r } => Some((0xF, r.as_usize() as u8, 0, 0xA)),
            Instr::SetDelayTimer { r } => Some((0xF, r.as_usize() as u8, 1, 5)),
            Instr::SetSoundTimer { r } => Some((0xF, r.as_usize() as u8, 1, 8)),
            Instr::IncrI { r } => Some((0xF, r.as_usize() as u8, 1, 0xE)),
            Instr::SpriteAddr { r } => Some((0xF, r.as_usize() as u8, 2, 9)),
            Instr::StoreBCD { r } => Some((0xF, r.as_usize() as u8, 3, 3)),
            Instr::RegDump { x } => Some((0xF, x.0, 5, 5)),
            Instr::RegLoad { x } => Some((0xF, x.0, 6, 5)),
            _ => None,
        }
    }

    /// The opcode nibble followed by the three nibbles of a 12-bit value.
    fn addr_nibbles(a: u8, v: u16) -> (t: (u8, u8, u8, u8))
        requires
            a <= 15,
            v <= 0xFFF,
        ensures
            t.0 == a,
            t.1 == v / 256,
            t.2 == (v / 16) % 16,
            t.3 == v % 16,
            t.1 <= 15 && t.2 <= 15 && t.3 <= 15,
    {
        (a, (v / 256) as u8, ((v / 16) % 16) as u8, (v % 16) as u8)
    }

    fn raw(a: u8, b: u8, c: u8, d: u8) -> (r: RawInstr)
        requires
            a <= 15,
            b <= 15,
            c <= 15,
            d <= 15,
        ensures
            r.nibbles[0].0 == a,
            r.nibbles[1].0 == b,
            r.nibbles[2].0 == c,
            r.nibbles[3].0 == d,
            r.wf(),
    {
        RawInstr { nibbles: [Nibble(a), Nibble(b), Nibble(c), Nibble(d)] }
    }

    fn raw_addr(a: u8, addr: u16) -> (r: RawInstr)
        requires
            a <= 15,
            addr <= 0xFFF,
        ensures
            r.nibbles[0].0 == a,
            r.nibbles[1].0 == addr / 256,
            r.nibbles[2].0 == (addr / 16) % 16,
            r.nibbles[3].0 == addr % 16,
            r.wf(),
    {
        Self::raw(a, (addr / 256) as u8, ((addr / 16) % 16) as u8, (addr % 16) as u8)
    }
}

impl RawInstr {
    /// The big-endian byte pair the nibbles came from.
    pub fn to_bytes(&self) -> (r: [u8; 2])
        requires
            self.wf(),
        ensures
            r[0] == self.nibbles[0].0 * 16 + self.nibbles[1].0,
            r[1] == self.nibbles[2].0 * 16 + self.nibbles[3].0,
    {
        [self.nibbles[0].0 * 16 + self.nibbles[1].0, self.nibbles[2].0 * 16 + self.nibbles[3].0]
    }
}

/// Decoding is inverted by encoding: any four nibbles that decode to
/// something other than `Data` are reproduced exactly by re-encoding the
/// instruction.  The shift opcodes are the one exception: they drop their
/// unused middle nibble, so only their canonical form (middle nibble zero)
/// round-trips.
/// Splitting `b * 256 + c * 16 + d` back into nibbles recovers `b`, `c`, `d`.
pub proof fn lemma_nibble_split(v: int, b: int, c: int, d: int)
    requires
        0 <= b < 16,
        0 <= c < 16,
        0 <= d < 16,
        v == b * 256 + c * 16 + d,
    ensures
        v / 256 == b,
        (v / 16) % 16 == c,
        v % 16 == d,
{
    vstd::arithmetic::div_mod::lemma_fundamental_div_mod_converse(v, 256, b, c * 16 + d);
    vstd::arithmetic::div_mod::lemma_fundamental_div_mod_converse(v, 16, b * 16 + c, d);
    vstd::arithmetic::div_mod::lemma_fundamental_div_mod_converse(b * 16 + c, 16, b, c);
}

#[verifier::rlimit(100)]
pub proof fn lemma_decode_encode(a: u8, b: u8, c: u8, d: u8)
    requires
        a <= 15,
        b <= 15,
        c <= 15,
        d <= 15,
        !(spec_decode(a, b, c, d) is Data),
        a == 8 && (d == 6 || d == 0xE) ==> c == 0,
    ensures
        spec_encode(spec_decode(a, b, c, d)) == Some((a, b, c, d)),
{
    assert(reg_of(b).index() == b);
    assert(reg_of(c).index() == c);
    lemma_nibble_split(spec_addr(b, c, d) as int, b as int, c as int, d as int);
    lemma_nibble_split(spec_byte(c, d) as int, 0, c as int, d as int);
    assert(a <= 2 ==> spec_encode(spec_decode(a, b, c, d)) == Some((a, b, c, d))) by {
        assert(reg_of(b).index() == b);
        lemma_nibble_split(spec_addr(b, c, d) as int, b as int, c as int, d as int);
    }
    assert(3 <= a <= 5 ==> spec_encode(spec_decode(a, b, c, d)) == Some((a, b, c, d))) by {
        assert(reg_of(b).index() == b);
        assert(reg_of(c).index() == c);
        lemma_nibble_split(spec_byte(c, d) as int, 0, c as int, d as int);
    }
    assert(6 <= a <= 8 ==> spec_encode(spec_decode(a, b, c, d)) == Some((a, b, c, d))) by {
        assert(reg_of(b).index() == b);
        assert(reg_of(c).index() == c);
        lemma_nibble_split(spec_byte(c, d) as int, 0, c as int, d as int);
    }
    assert(9 <= a <= 0xC ==> spec_encode(spec_decode(a, b, c, d)) == Some((a, b, c, d))) by {
        assert(reg_of(b).index() == b);
        assert(reg_of(c).index() == c);
        lemma_nibble_split(spec_addr(b, c, d) as int, b as int, c as int, d as int);
        lemma_nibble_split(spec_byte(c, d) as int, 0, c as int, d as int);
    }
    assert(a >= 0xD ==> spec_encode(spec_decode(a, b, c, d)) == Some((a, b, c, d))) by {
        assert(reg_of(b).index() == b);
        assert(reg_of(c).index() == c);
    }
}

} // verus!