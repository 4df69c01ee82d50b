use chip8::base::Nibble;
use chip8::language::{Instr, RawInstr, Register};

fn decode(b0: u8, b1: u8) -> Instr {
    RawInstr::from_bytes([b0, b1]).into_instr()
}

#[test]
fn from_bytes_splits_nibbles() {
    let raw = RawInstr::from_bytes([0xD0, 0x15]);
    assert_eq!(raw.nibbles[0].0, 0xD);
    assert_eq!(raw.nibbles[1].0, 0x0);
    assert_eq!(raw.nibbles[2].0, 0x1);
    assert_eq!(raw.nibbles[3].0, 0x5);
}

#[test]
fn decode_control_flow() {
    assert_eq!(decode(0x00, 0xE0), Instr::Clear);
    assert_eq!(decode(0x00, 0xEE), Instr::Ret);
    assert!(matches!(decode(0x01, 0x23), Instr::System { addr } if addr.0 == 0x123));
    assert!(matches!(decode(0x1A, 0xBC), Instr::Goto { addr } if addr.0 == 0xABC));
    assert!(matches!(decode(0x22, 0x34), Instr::Call { addr } if addr.0 == 0x234));
    assert!(matches!(decode(0xB2, 0x34), Instr::Jump { n } if n.0 == 0x234));
}

#[test]
fn decode_register_ops() {
    assert!(matches!(decode(0x31, 0xAB), Instr::SkipEq { r: Register::V1, c: 0xAB }));
    assert!(matches!(decode(0x41, 0xAB), Instr::SkipNEq { r: Register::V1, c: 0xAB }));
    assert!(matches!(decode(0x51, 0x20), Instr::SkipEqV { r: Register::V1, s: Register::V2 }));
    assert!(matches!(decode(0x61, 0x0A), Instr::SetReg { r: Register::V1, a: 0x0A }));
    assert!(matches!(decode(0x71, 0x0A), Instr::Incr { r: Register::V1, a: 0x0A }));
    assert!(matches!(decode(0x81, 0x20), Instr::Copy { r: Register::V1, s: Register::V2 }));
    assert!(matches!(decode(0x81, 0x21), Instr::BitOr { r: Register::V1, s: Register::V2 }));
    assert!(matches!(decode(0x81, 0x22), Instr::BitAnd { r: Register::V1, s: Register::V2 }));
    assert!(matches!(decode(0x81, 0x23), Instr::BitXOr { r: Register::V1, s: Register::V2 }));
    assert!(matches!(decode(0x81, 0x24), Instr::Add { r: Register::V1, s: Register::V2 }));
    assert!(matches!(decode(0x81, 0x25), Instr::Sub { r: Register::V1, s: Register::V2 }));
    assert!(matches!(decode(0x81, 0x26), Instr::ShiftR { r: Register::V1 }));
    assert!(matches!(decode(0x81, 0x27), Instr::Lt { r: Register::V1, s: Register::V2 }));
    assert!(matches!(decode(0x81, 0x2E), Instr::ShiftL { r: Register::V1 }));
    assert!(matches!(decode(0x91, 0x20), Instr::SkipNEqV { r: Register::V1, s: Register::V2 }));
}

#[test]
fn decode_misc_ops() {
    assert!(matches!(decode(0xA1, 0x23), Instr::SetI { n } if n.0 == 0x123));
    assert!(matches!(decode(0xC1, 0x7F), Instr::Rand { r: Register::V1, n: 0x7F }));
    assert!(matches!(
        decode(0xD1, 0x25),
        Instr::Draw { x: Register::V1, y: Register::V2, height: 5 }
    ));
    assert!(matches!(decode(0xE1, 0x9E), Instr::Pressed { r: Register::V1 }));
    assert!(matches!(decode(0xE1, 0xA1), Instr::NotPressed { r: Register::V1 }));
    assert!(matches!(decode(0xF1, 0x07), Instr::GetDelay { r: Register::V1 }));
    assert!(matches!(decode(0xF1, 0x0A), Instr::LoadKey { r: Register::V1 }));
    assert!(matches!(decode(0xF1, 0x15), Instr::SetDelayTimer { r: Register::V1 }));
    assert!(matches!(decode(0xF1, 0x18), Instr::SetSoundTimer { r: Register::V1 }));
    assert!(matches!(decode(0xF1, 0x1E), Instr::IncrI { r: Register::V1 }));
    assert!(matches!(decode(0xF1, 0x29), Instr::SpriteAddr { r: Register::V1 }));
    assert!(matches!(decode(0xF1, 0x33), Instr::StoreBCD { r: Register::V1 }));
    assert!(matches!(decode(0xF1, 0x55), Instr::RegDump { x: Nibble(1) }));
    assert!(matches!(decode(0xF1, 0x65), Instr::RegLoad { x: Nibble(1) }));
}

#[test]
fn decode_is_total_on_unknown_patterns() {
    assert!(matches!(decode(0xFF, 0xFF), Instr::Data(0xF, 0xF, 0xF, 0xF)));
    assert!(matches!(decode(0x51, 0x21), Instr::Data(5, 1, 2, 1)));
    assert!(matches!(decode(0x81, 0x28), Instr::Data(8, 1, 2, 8)));
    assert!(matches!(decode(0xE1, 0x00), Instr::Data(0xE, 1, 0, 0)));
    assert!(matches!(decode(0xF1, 0x99), Instr::Data(0xF, 1, 9, 9)));
}

#[test]
fn encode_reproduces_decoded_bytes() {
    let pairs: [[u8; 2]; 34] = [
        [0x00, 0xE0],
        [0x00, 0xEE],
        [0x01, 0x23],
        [0x1A, 0xBC],
        [0x22, 0x34],
        [0x3A, 0xBC],
        [0x4A, 0xBC],
        [0x5A, 0xB0],
        [0x6A, 0xBC],
        [0x7A, 0xBC],
        [0x8A, 0xB0],
        [0x8A, 0xB1],
        [0x8A, 0xB2],
        [0x8A, 0xB3],
        [0x8A, 0xB4],
        [0x8A, 0xB5],
        [0x8A, 0x06],
        [0x8A, 0xB7],
        [0x8A, 0x0E],
        [0x9A, 0xB0],
        [0xAA, 0xBC],
        [0xBA, 0xBC],
        [0xCA, 0xBC],
        [0xDA, 0xBC],
        [0xEA, 0x9E],
        [0xEA, 0xA1],
        [0xFA, 0x07],
        [0xFA, 0x0A],
        [0xFA, 0x15],
        [0xFA, 0x18],
        [0xFA, 0x1E],
        [0xFA, 0x29],
        [0xFA, 0x33],
        [0xFA, 0x55],
    ];
    for pair in pairs {
        let instr = decode(pair[0], pair[1]);
        let raw = instr.encode().expect("documented opcodes re-encode");
        assert_eq!(raw.to_bytes(), pair);
    }
    let instr = decode(0xFA, 0x65);
    assert_eq!(instr.encode().expect("RegLoad re-encodes").to_bytes(), [0xFA, 0x65]);
}

#[test]
fn data_does_not_encode() {
    assert!(decode(0xFF, 0xFF).encode().is_none());
}

#[test]
fn disassembly_is_canonical() {
    assert_eq!(decode(0x61, 0x0A).disassemble(), "LD V1, 0x0A");
    assert_eq!(decode(0x22, 0x34).disassemble(), "CALL 0x0234");
    assert_eq!(decode(0xD0, 0x15).disassemble(), "DRW V0, V1, 0x05");
    assert_eq!(decode(0x00, 0xE0).disassemble(), "CLS");
    assert_eq!(decode(0x00, 0xEE).disassemble(), "RET");
    assert_eq!(decode(0x01, 0x23).disassemble(), "SYS 0x0123");
    assert_eq!(decode(0x1F, 0xFE).disassemble(), "JP 0x0FFE");
    assert_eq!(decode(0x3A, 0xBC).disassemble(), "SE VA, 0xBC");
    assert_eq!(decode(0x5A, 0xB0).disassemble(), "SE VA, VB");
    assert_eq!(decode(0x8A, 0xB4).disassemble(), "ADD VA, VB");
    assert_eq!(decode(0x8A, 0xB5).disassemble(), "SUB VA, VB");
    assert_eq!(decode(0x8A, 0x06).disassemble(), "SHR VA");
    assert_eq!(decode(0x8A, 0xB7).disassemble(), "SUBN VA, VB");
    assert_eq!(decode(0x8A, 0x0E).disassemble(), "SHL VA");
    assert_eq!(decode(0xA1, 0x23).disassemble(), "LD I, 0x0123");
    assert_eq!(decode(0xB1, 0x23).disassemble(), "JP V0, 0x0123");
    assert_eq!(decode(0xC1, 0x7F).disassemble(), "RND V1, 0x7F");
    assert_eq!(decode(0xE1, 0x9E).disassemble(), "SKP V1");
    assert_eq!(decode(0xE1, 0xA1).disassemble(), "SKPN V1");
    assert_eq!(decode(0xF1, 0x07).disassemble(), "LD V1, DT");
    assert_eq!(decode(0xF1, 0x0A).disassemble(), "LD V1, K");
    assert_eq!(decode(0xF1, 0x15).disassemble(), "LD DT, V1");
    assert_eq!(decode(0xF1, 0x18).disassemble(), "LD ST, V1");
    assert_eq!(decode(0xF1, 0x1E).disassemble(), "ADD I, V1");
    assert_eq!(decode(0xF1, 0x29).disassemble(), "LD F, V1");
    assert_eq!(decode(0xF1, 0x33).disassemble(), "LD B, V1");
    assert_eq!(decode(0xF1, 0x55).disassemble(), "LD [I], 0x01");
    assert_eq!(decode(0xF1, 0x65).disassemble(), "LD 0x01, [I]");
    assert_eq!(decode(0xFF, 0xFF).disassemble(), "DATA");
}

#[test]
fn register_indices_are_a_bijection() {
    for n in 0u8..16 {
        let r = Register::from_index(n);
        assert_eq!(r.as_usize(), n as usize);
        assert_eq!(Register::from_nibble(Nibble::new(n)), r);
    }
}
