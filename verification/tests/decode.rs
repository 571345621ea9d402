use chip8::isa::decode;
use chip8::isa::ISA;

#[test]
fn test_decode() {
    let tests: [([u8; 2], ISA); 35] = [
        ([0x00, 0xE0], ISA::CLS),
        ([0x00, 0xEE], ISA::RET),
        ([0x0F, 0xFF], ISA::SYS(4095)),
        ([0x1F, 0xFF], ISA::JP(4095)),
        ([0x2F, 0xFF], ISA::CALL(4095)),
        ([0x3F, 0xFF], ISA::SKE(15, 255)),
        ([0x4F, 0xFF], ISA::SKNE(15, 255)),
        ([0x5F, 0xFF], ISA::SKRE(15, 15)),
        ([0x6F, 0xFF], ISA::LOAD(15, 255)),
        ([0x7F, 0xFF], ISA::ADD(15, 255)),
        ([0x8F, 0xF0], ISA::MOVE(15, 15)),
        ([0x8F, 0xF1], ISA::OR(15, 15)),
        ([0x8F, 0xF2], ISA::AND(15, 15)),
        ([0x8F, 0xF3], ISA::XOR(15, 15)),
        ([0x8F, 0xF4], ISA::ADDR(15, 15)),
        ([0x8F, 0xF5], ISA::SUB(15, 15)),
        ([0x8F, 0xF6], ISA::SHR(15, 15)),
        ([0x8F, 0xF7], ISA::SUBN(15, 15)),
        ([0x8F, 0xFE], ISA::SHL(15, 15)),
        ([0x9F, 0xFF], ISA::SKRNE(15, 15)),
        ([0xAF, 0xFF], ISA::LOADI(4095)),
        ([0xBF, 0xFF], ISA::JUMPI(4095)),
        ([0xCF, 0xFF], ISA::RAND(15, 255)),
        ([0xDF, 0xFF], ISA::DRAW(15, 15, 15)),
        ([0xEF, 0x9E], ISA::SKPR(15)),
        ([0xEF, 0xA1], ISA::SKUP(15)),
        ([0xFF, 0x07], ISA::MOVED(15)),
        ([0xFF, 0x0A], ISA::KEYD(15)),
        ([0xFF, 0x15], ISA::LOADD(15)),
        ([0xFF, 0x18], ISA::LOADS(15)),
        ([0xFF, 0x1E], ISA::ADDI(15)),
        ([0xFF, 0x29], ISA::LDSPR(15)),
        ([0xFF, 0x33], ISA::BCD(15)),
        ([0xFF, 0x55], ISA::STOR(15)),
        ([0xFF, 0x65], ISA::READ(15)),
    ];
    for (data, expected) in tests.iter() {
        let op = decode(&data[..]);
        assert!(op.is_some());
        assert_eq!(op.unwrap(), *expected);
    }
}

#[test]
fn decode_known_values() {
    assert_eq!(decode(&[0x00, 0xE0]).unwrap(), ISA::CLS);
    assert_eq!(decode(&[0xFF, 0x65]).unwrap(), ISA::READ(15));
    assert_eq!(decode(&[0x8A, 0xB6]).unwrap(), ISA::SHR(10, 11));
}

#[test]
fn decode_is_total_over_all_opcodes() {
    // every 16-bit value decodes to exactly one variant, deterministically
    for op in 0u32..65536 {
        let bytes = [(op >> 8) as u8, (op & 0xFF) as u8];
        let first = decode(&bytes[..]);
        assert!(first.is_some());
        let second = decode(&bytes[..]);
        assert_eq!(first, second);
    }
}

#[test]
fn decode_short_window_fails() {
    assert!(decode(&[]).is_none());
    assert!(decode(&[0x00]).is_none());
}

#[test]
fn decode_unrecognized_patterns() {
    assert_eq!(decode(&[0x80, 0x08]).unwrap(), ISA::NOP(0x8008));
    assert_eq!(decode(&[0xE0, 0x00]).unwrap(), ISA::NOP(0xE000));
    assert_eq!(decode(&[0xF0, 0xFF]).unwrap(), ISA::NOP(0xF0FF));
}

#[test]
fn mnemonic_rendering() {
    assert_eq!(decode(&[0x00, 0xE0]).unwrap().mnemonic(), "CLS");
    assert_eq!(decode(&[0x00, 0xEE]).unwrap().mnemonic(), "RET");
    assert_eq!(decode(&[0x62, 0x05]).unwrap().mnemonic(), "LOAD r2, $005");
    assert_eq!(decode(&[0x8A, 0xB6]).unwrap().mnemonic(), "SHR rA, rB");
    assert_eq!(decode(&[0x2F, 0xFF]).unwrap().mnemonic(), "CALL $FFF");
    assert_eq!(decode(&[0xD1, 0x2F]).unwrap().mnemonic(), "DRAW r1, r2, $F");
    assert_eq!(decode(&[0xFF, 0x65]).unwrap().mnemonic(), "READ $F");
    assert_eq!(decode(&[0x80, 0x08]).unwrap().mnemonic(), "NOP $8008");
    assert_eq!(decode(&[0x8A, 0xB2]).unwrap().mnemonic(), "AND rA, rB");
}
