//! Textual views of the machine: canonical disassembly of instructions, the
//! framebuffer as a 32-line string, and one line of a memory listing.

use vstd::prelude::*;
use crate::architecture::{Chip8, Chip8View, Screen};
use crate::language::{spec_decode, Instr, RawInstr, Register};

verus! {

/// One upper-case hexadecimal digit.  Meaningful for `0..=15`.
pub open spec fn hex_text(n: int) -> Seq<char> {
    if n == 0 {
        "0"@
    } else if n == 1 {
        "1"@
    } else if n == 2 {
        "2"@
    } else if n == 3 {
        "3"@
    } else if n == 4 {
        "4"@
    } else if n == 5 {
        "5"@
    } else if n == 6 {
        "6"@
    } else if n == 7 {
        "7"@
    } else if n == 8 {
        "8"@
    } else if n == 9 {
        "9"@
    } else if n == 10 {
        "A"@
    } else if n == 11 {
        "B"@
    } else if n == 12 {
        "C"@
    } else if n == 13 {
        "D"@
    } else if n == 14 {
        "E"@
    } else {
        "F"@
    }
}

/// A register name, `V0` through `VF`.
pub open spec fn reg_text(r: Register) -> Seq<char> {
    match r {
        Register::V0 => "V0"@,
        Register::V1 => "V1"@,
        Register::V2 => "V2"@,
        Register::V3 => "V3"@,
        Register::V4 => "V4"@,
        Register::V5 => "V5"@,
        Register::V6 => "V6"@,
        Register::V7 => "V7"@,
        Register::V8 => "V8"@,
        Register::V9 => "V9"@,
        Register::VA => "VA"@,
        Register::VB => "VB"@,
        Register::VC => "VC"@,
        Register::VD => "VD"@,
        Register::VE => "VE"@,
        Register::VF => "VF"@,
    }
}

/// A nibble written `0x0N`.
pub open spec fn nib_text(n: u8) -> Seq<char> {
    "0x0"@ + hex_text(n as int)
}

/// A byte written `0xNN`.
pub open spec fn byte_text(b: u8) -> Seq<char> {
    "0x"@ + hex_text(b as int / 16) + hex_text(b as int % 16)
}

/// A 12-bit address written `0x0NNN`.
pub open spec fn addr_text(a: u16) -> Seq<char> {
    "0x0"@ + hex_text(a as int / 256) + hex_text((a as int / 16) % 16) + hex_text(a as int % 16)
}

/// A raw big-endian byte pair written `0xNNNN`.
pub open spec fn raw_text(hi: u8, lo: u8) -> Seq<char> {
    "0x"@ + hex_text(hi as int / 16) + hex_text(hi as int % 16) + hex_text(lo as int / 16)
        + hex_text(lo as int % 16)
}

/// The canonical disassembly of an instruction.
pub open spec fn instr_text(i: Instr) -> Seq<char> {
    match i {
        Instr::System { addr } => "SYS "@ + addr_text(addr.0),
        Instr::Clear => "CLS"@,
        Instr::Ret => "RET"@,
        Instr::Goto { addr } => "JP "@ + addr_text(addr.0),
        Instr::Call { addr } => "CALL "@ + addr_text(addr.0),
        Instr::SkipEq { r, c } => "SE "@ + reg_text(r) + ", "@ + byte_text(c),
        Instr::SkipNEq { r, c } => "SNE "@ + reg_text(r) + ", "@ + byte_text(c),
        Instr::SkipEqV { r, s } => "SE "@ + reg_text(r) + ", "@ + reg_text(s),
        Instr::SetReg { r, a } => "LD "@ + reg_text(r) + ", "@ + byte_text(a),
        Instr::Incr { r, a } => "ADD "@ + reg_text(r) + ", "@ + byte_text(a),
        Instr::Copy { r, s } => "LD "@ + reg_text(r) + ", "@ + reg_text(s),
        Instr::BitOr { r, s } => "OR "@ + reg_text(r) + ", "@ + reg_text(s),
        Instr::BitAnd { r, s } => "AND "@ + reg_text(r) + ", "@ + reg_text(s),
        Instr::BitXOr { r, s } => "XOR "@ + reg_text(r) + ", "@ + reg_text(s),
        Instr::Add { r, s } => "ADD "@ + reg_text(r) + ", "@ + reg_text(s),
        Instr::Sub { r, s } => "SUB "@ + reg_text(r) + ", "@ + reg_text(s),
        Instr::ShiftR { r } => "SHR "@ + reg_text(r),
        Instr::Lt { r, s } => "SUBN "@ + reg_text(r) + ", "@ + reg_text(s),
        Instr::ShiftL { r } => "SHL "@ + reg_text(r),
        Instr::SkipNEqV { r, s } => "SNE "@ + reg_text(r) + ", "@ + reg_text(s),
        Instr::SetI { n } => "LD I, "@ + addr_text(n.0),
        Instr::Jump { n } => "JP V0, "@ + addr_text(n.0),
        Instr::Rand { r, n } => "RND "@ + reg_text(r) + ", "@ + byte_text(n),
        Instr::Draw { x, y, height } => "DRW "@ + reg_text(x) + ", "@ + reg_text(y) + ", "@
            + nib_text(height),
        Instr::Pressed { r } => "SKP "@ + reg_text(r),
        Instr::NotPressed { r } => "SKPN "@ + reg_text(r),
        Instr::GetDelay { r } => "LD "@ + reg_text(r) + ", DT"@,
        Instr::LoadKey { r } => "LD "@ + reg_text(r) + ", K"@,
        Instr::SetDelayTimer { r } => "LD DT, "@ + reg_text(r),
        Instr::SetSoundTimer { r } => "LD ST, "@ + reg_text(r),
        Instr::IncrI { r } => "ADD I, "@ + reg_text(r),
        Instr::SpriteAddr { r } => "LD F, "@ + reg_text(r),
        Instr::StoreBCD { r } => "LD B, "@ + reg_text(r),
        Instr::RegDump { x } => "LD [I], "@ + nib_text(x.0),
        Instr::RegLoad { x } => "LD "@ + nib_text(x.0) + ", [I]"@,
        Instr::Data(_, _, _, _) => "DATA"@,
    }
}

/// One hexadecimal digit as a string slice.
fn hex_str(n: u8) -> (r: &'static str)
    requires
        n <= 15,
    ensures
        r@ == hex_text(n as int),
{
    match n {
        0 => "0",
        1 => "1",
        2 => "2",
        3 => "3",
        4 => "4",
        5 => "5",
        6 => "6",
        7 => "7",
        8 => "8",
        9 => "9",
        10 => "A",
        11 => "B",
        12 => "C",
        13 => "D",
        14 => "E",
        _ => "F",
    }
}

/// A register's name as a string slice.
fn reg_str(r: Register) -> (s: &'static str)
    ensures
        s@ == reg_text(r),
{
    match r {
        Register::V0 => "V0",
        Register::V1 => "V1",
        Register::V2 => "V2",
        Register::V3 => "V3",
        Register::V4 => "V4",
        Register::V5 => "V5",
        Register::V6 => "V6",
        Register::V7 => "V7",
        Register::V8 => "V8",
        Register::V9 => "V9",
        Register::VA => "VA",
        Register::VB => "VB",
        Register::VC => "VC",
        Register::VD => "VD",
        Register::VE => "VE",
        Register::VF => "VF",
    }
}

/// Appends a nibble written `0x0N`.
fn append_nib(s: &mut String, n: u8)
    requires
        n <= 15,
    ensures
        final(s)@ == old(s)@ + nib_text(n),
{
    s.append("0x0");
    s.append(hex_str(n));
    proof {
        assert(s@ =~= old(s)@ + nib_text(n));
    }
}

/// Appends a byte written `0xNN`.
fn append_byte(s: &mut String, b: u8)
    ensures
        final(s)@ == old(s)@ + byte_text(b),
{
    s.append("0x");
    s.append(hex_str(b / 16));
    s.append(hex_str(b % 16));
    proof {
        assert(s@ =~= old(s)@ + byte_text(b));
    }
}

/// Appends a 12-bit address written `0x0NNN`.
fn append_addr(s: &mut String, a: u16)
    requires
        a <= 0xFFF,
    ensures
        final(s)@ == old(s)@ + addr_text(a),
{
    s.append("0x0");
    s.append(hex_str((a / 256) as u8));
    s.append(hex_str(((a / 16) % 16) as u8));
    s.append(hex_str((a % 16) as u8));
    proof {
        assert(s@ =~= old(s)@ + addr_text(a));
    }
}

impl Instr {
    /// The canonical human-readable form of the instruction, as the memory
    /// listing shows it.
    pub fn disassemble(&self) -> (s: String)
        requires
            self.wf(),
        ensures
            s@ == instr_text(*self),
    {
        match self {
            Instr::System { .. } => self.disasm_low(),
            Instr::Clear => self.disasm_low(),
            Instr::Ret => self.disasm_low(),
            Instr::Goto { .. } => self.disasm_low(),
            Instr::Call { .. } => self.disasm_low(),
            Instr::SkipEq { .. } => self.disasm_low(),
            Instr::SkipNEq { .. } => self.disasm_low(),
            Instr::SkipEqV { .. } => self.disasm_low(),
            Instr::SetReg { .. } => self.disasm_low(),
            Instr::Incr { .. } => self.disasm_low(),
            Instr::Copy { .. } => self.disasm_low(),
            Instr::BitOr { .. } => self.disasm_low(),
            Instr::BitAnd { .. } => self.disasm_low(),
            Instr::BitXOr { .. } => self.disasm_low(),
            Instr::Add { .. } => self.disasm_low(),
            Instr::Sub { .. } => self.disasm_low(),
            Instr::ShiftR { .. } => self.disasm_low(),
            Instr::Lt { .. } => self.disasm_low(),
            Instr::ShiftL { .. } => self.disasm_low(),
            _ => self.disasm_high(),
        }
    }

    fn disasm_low(&self) -> (s: String)
        requires
            self.wf(),
            self.low_family(),
        ensures
            s@ == instr_text(*self),
    {
        match self {
            Instr::System { addr } => {
                let mut s = String::from_str("SYS ");
                append_addr(&mut s, addr.0);
                s
            },
            Instr::Clear => String::from_str("CLS"),
            Instr::Ret => String::from_str("RET"),
            Instr::Goto { addr } => {
                let mut s = String::from_str("JP ");
                append_addr(&mut s, addr.0);
                s
            },
            Instr::Call { addr } => {
                let mut s = String::from_str("CALL ");
                append_addr(&mut s, addr.0);
                s
            },
            Instr::SkipEq { r, c } => Self::two_args_byte("SE ", *r, *c),
            Instr::SkipNEq { r, c } => Self::two_args_byte("SNE ", *r, *c),
            Instr::SkipEqV { r, s } => Self::two_args_reg("SE ", *r, *s),
            Instr::SetReg { r, a } => Self::two_args_byte("LD ", *r, *a),
            Instr::Incr { r, a } => Self::two_args_byte("ADD ", *r, *a),
            Instr::Copy { r, s } => Self::two_args_reg("LD ", *r, *s),
            Instr::BitOr { r, s } => Self::two_args_reg("OR ", *r, *s),
            Instr::BitAnd { r, s } => Self::two_args_reg("AND ", *r, *s),
            Instr::BitXOr { r, s } => Self::two_args_reg("XOR ", *r, *s),
            Instr::Add { r, s } => Self::two_args_reg("ADD ", *r, *s),
            Instr::Sub { r, s } => Self::two_args_reg("SUB ", *r, *s),
            Instr::ShiftR { r } => {
                let mut s = String::from_str("SHR ");
                s.append(reg_str(*r));
                s
            },
            Instr::Lt { r, s } => Self::two_args_reg("SUBN ", *r, *s),
            Instr::ShiftL { r } => {
                let mut s = String::from_str("SHL ");
                s.append(reg_str(*r));
                s
            },
            _ => {
                proof {
                    assert(false);
                }
                String::from_str("DATA")
            },
        }
    }

    fn disasm_high(&self) -> (s: String)
        requires
            self.wf(),
            !self.low_family(),
        ensures
            s@ == instr_text(*self),
    {
        match self {
            Instr::SkipNEqV { r, s } => Self::two_args_reg("SNE ", *r, *s),
            Instr::SetI { n } => {
                let mut s = String::from_str("LD I, ");
                append_addr(&mut s, n.0);
                s
            },
            Instr::Jump { n } => {
                let mut s = String::from_str("JP V0, ");
                append_addr(&mut s, n.0);
                s
            },
            Instr::Rand { r, n } => Self::two_args_byte("RND ", *r, *n),
            Instr::Draw { x, y, height } => {
                let mut s = Self::two_args_reg("DRW ", *x, *y);
                s.append(", ");
                append_nib(&mut s, *height);
                proof {
                    assert(s@ =~= instr_text(*self));
                }
                s
            },
            Instr::Pressed { r } => {
                let mut s = String::from_str("SKP ");
                s.append(reg_str(*r));
                s
            },
            Instr::NotPressed { r } => {
                let mut s = String::from_str("SKPN ");
                s.append(reg_str(*r));
                s
            },
            Instr::GetDelay { r } => {
                let mut s = String::from_str("LD ");
                s.append(reg_str(*r));
                s.append(", DT");
                proof {
                    assert(s@ =~= instr_text(*self));
                }
                s
            },
            Instr::LoadKey { r } => {
                let mut s = String::from_str("LD ");
                s.append(reg_str(*r));
                s.append(", K");
                proof {
                    assert(s@ =~= instr_text(*self));
                }
                s
            },
            Instr::SetDelayTimer { r } => {
                let mut s = String::from_str("LD DT, ");
                s.append(reg_str(*r));
                s
            },
            Instr::SetSoundTimer { r } => {
                let mut s = String::from_str("LD ST, ");
                s.append(reg_str(*r));
                s
            },
            Instr::IncrI { r } => {
                let mut s = String::from_str("ADD I, ");
                s.append(reg_str(*r));
                s
            },
            Instr::SpriteAddr { r } => {
                let mut s = String::from_str("LD F, ");
                s.append(reg_str(*r));
                s
            },
            Instr::StoreBCD { r } => {
                let mut s = String::from_str("LD B, ");
                s.append(reg_str(*r));
                s
            },
            Instr::RegDump { x } => {
                let mut s = String::from_str("LD [I], ");
                append_nib(&mut s, x.0);
                s
            },
            Instr::RegLoad { x } => {
                let mut s = String::from_str("LD ");
                append_nib(&mut s, x.0);
                s.append(", [I]");
                proof {
                    assert(s@ =~= instr_text(*self));
                }
                s
            },
            Instr::Data(_, _, _, _) => String::from_str("DATA"),
            _ => {
                proof {
                    assert(false);
                }
                String::from_str("DATA")
            },
        }
    }

    /// A mnemonic, a register, a comma, and a byte.
    fn two_args_byte(mnemonic: &str, r: Register, b: u8) -> (s: String)
        ensures
            s@ == mnemonic@ + reg_text(r) + ", "@ + byte_text(b),
    {
        let mut s = String::from_str(mnemonic);
        s.append(reg_str(r));
        s.append(", ");
        append_byte(&mut s, b);
        proof {
            assert(s@ =~= mnemonic@ + reg_text(r) + ", "@ + byte_text(b));
        }
        s
    }

    /// A mnemonic and two registers separated by a comma.
    fn two_args_reg(mnemonic: &str, r: Register, t: Register) -> (s: String)
        ensures
            s@ == mnemonic@ + reg_text(r) + ", "@ + reg_text(t),
    {
        let mut s = String::from_str(mnemonic);
        s.append(reg_str(r));
        s.append(", ");
        s.append(reg_str(t));
        proof {
            assert(s@ =~= mnemonic@ + reg_text(r) + ", "@ + reg_text(t));
        }
        s
    }
}

/// The character a pixel is shown as.
pub open spec fn pixel_text(b: bool) -> Seq<char> {
    if b {
        "\u{2588}"@
    } else {
        "."@
    }
}

/// The first `p` characters' worth of the framebuffer rendering: 32 lines of
/// 64 pixel characters, each line closed by a newline, walked as 32 * 65
/// positions.
pub open spec fn screen_text_upto(s: Seq<bool>, p: int) -> Seq<char>
    decreases p,
{
    if p <= 0 {
        Seq::empty()
    } else {
        let q = p - 1;
        screen_text_upto(s, q) + (if q % 65 == 64 {
            "\n"@
        } else {
            pixel_text(s[(q / 65) * 64 + q % 65])
        })
    }
}

/// The whole framebuffer as a 32-line string.
pub open spec fn screen_text(s: Seq<bool>) -> Seq<char> {
    screen_text_upto(s, 2080int)
}

impl Screen {
    /// The framebuffer as 32 lines of 64 characters: a full block for a lit
    /// pixel, a dot for a dark one.
    pub fn to_string(&self) -> (s: String)
        requires
            self.wf(),
        ensures
            s@ == screen_text(self@),
    {
        let mut s = String::new();
        let mut p: usize = 0;
        proof {
            assert(s@ =~= screen_text_upto(self@, 0));
        }
        while p < 2080
            invariant
                self.wf(),
                p <= 2080,
                s@ == screen_text_upto(self@, p as int),
            decreases 2080 - p,
        {
            let row = p / 65;
            let col = p % 65;
            proof {
                vstd::arithmetic::div_mod::lemma_fundamental_div_mod(p as int, 65);
            }
            if col == 64 {
                s.append("\n");
            } else {
                if self.get(row, col) {
                    s.append("\u{2588}");
                } else {
                    s.append(".");
                }
            }
            p = p + 1;
        }
        s
    }
}

/// One line of the memory listing at `addr`: the raw byte pair and its
/// disassembly, separated by one space.
pub open spec fn listing_text(v: Chip8View, addr: int) -> Seq<char> {
    let hi = v.memory[addr];
    let lo = v.memory[addr + 1];
    raw_text(hi, lo) + " "@ + instr_text(spec_decode(hi / 16, hi % 16, lo / 16, lo % 16))
}

impl Chip8 {
    /// The memory-listing line for the byte pair at `addr`, or `None` where
    /// the pair does not fit in memory.
    pub fn disasm_at(&self, addr: usize) -> (s: Option<String>)
        requires
            self@.wf(),
        ensures
            addr + 1 < 4096 ==> (s matches Some(line) && line@ == listing_text(self@, addr as int)),
            addr + 1 >= 4096 ==> s is None,
    {
        if addr >= 4095 {
            return None;
        }
        let hi = self.memory[addr];
        let lo = self.memory[addr + 1];
        let raw = RawInstr::from_bytes([hi, lo]);
        let instr = raw.clone().into_instr();
        proof {
            crate::language::lemma_decode_wf(hi / 16, hi % 16, lo / 16, lo % 16);
        }
        let mut line = String::from_str("0x");
        line.append(hex_str(hi / 16));
        line.append(hex_str(hi % 16));
        line.append(hex_str(lo / 16));
        line.append(hex_str(lo % 16));
        line.append(" ");
        let d = instr.disassemble();
        line.append(d.as_str());
        proof {
            assert(line@ =~= listing_text(self@, addr as int));
        }
        Some(line)
    }
}

} // verus!
