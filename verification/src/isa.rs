//! The closed instruction set: 35 named operations plus a catch-all variant
//! for unrecognized bit patterns, a total decoder from 16-bit opcodes, and a
//! canonical mnemonic rendering.

use vstd::prelude::*;
use vstd::string::StringExecFns;

verus! {

/// The character for one hex digit value.
pub open spec fn hex_char(d: int) -> char {
    if d == 0 {
        '0'
    } else if d == 1 {
        '1'
    } else if d == 2 {
        '2'
    } else if d == 3 {
        '3'
    } else if d == 4 {
        '4'
    } else if d == 5 {
        '5'
    } else if d == 6 {
        '6'
    } else if d == 7 {
        '7'
    } else if d == 8 {
        '8'
    } else if d == 9 {
        '9'
    } else if d == 10 {
        'A'
    } else if d == 11 {
        'B'
    } else if d == 12 {
        'C'
    } else if d == 13 {
        'D'
    } else if d == 14 {
        'E'
    } else {
        'F'
    }
}

/// One hex digit, as register indices and 4-bit counts are rendered.
pub open spec fn hex1(v: int) -> Seq<char> {
    seq![hex_char(v % 16)]
}

/// Three hex digits, most significant first, as addresses and immediates
/// are rendered.
pub open spec fn hex3(v: int) -> Seq<char> {
    seq![hex_char((v / 256) % 16), hex_char((v / 16) % 16), hex_char(v % 16)]
}

/// Four hex digits, most significant first, as a raw opcode is rendered.
pub open spec fn hex4(v: int) -> Seq<char> {
    seq![hex_char((v / 4096) % 16), hex_char((v / 256) % 16), hex_char((v / 16) % 16), hex_char(
        v % 16,
    )]
}

/// The text of one hex digit.
fn hex_digit_str(d: usize) -> (s: &'static str)
    requires
        d < 16,
    ensures
        s@ == seq![hex_char(d as int)],
{
    proof {
        reveal_strlit("0");
        reveal_strlit("1");
        reveal_strlit("2");
        reveal_strlit("3");
        reveal_strlit("4");
        reveal_strlit("5");
        reveal_strlit("6");
        reveal_strlit("7");
        reveal_strlit("8");
        reveal_strlit("9");
        reveal_strlit("A");
        reveal_strlit("B");
        reveal_strlit("C");
        reveal_strlit("D");
        reveal_strlit("E");
        reveal_strlit("F");
    }
    let s = if d == 0 {
        "0"
    } else if d == 1 {
        "1"
    } else if d == 2 {
        "2"
    } else if d == 3 {
        "3"
    } else if d == 4 {
        "4"
    } else if d == 5 {
        "5"
    } else if d == 6 {
        "6"
    } else if d == 7 {
        "7"
    } else if d == 8 {
        "8"
    } else if d == 9 {
        "9"
    } else if d == 10 {
        "A"
    } else if d == 11 {
        "B"
    } else if d == 12 {
        "C"
    } else if d == 13 {
        "D"
    } else if d == 14 {
        "E"
    } else {
        "F"
    };
    proof {
        assert(s@ =~= seq![hex_char(d as int)]);
    }
    s
}

/// Append one hex digit of `v`.
fn push_hex1(s: &mut String, v: usize)
    ensures
        final(s)@ == old(s)@ + hex1(v as int),
{
    s.append(hex_digit_str(v % 16));
    proof {
        assert(s@ =~= old(s)@ + hex1(v as int));
    }
}

/// Append three hex digits of `v`, most significant first.
fn push_hex3(s: &mut String, v: usize)
    ensures
        final(s)@ == old(s)@ + hex3(v as int),
{
    s.append(hex_digit_str((v / 256) % 16));
    s.append(hex_digit_str((v / 16) % 16));
    s.append(hex_digit_str(v % 16));
    proof {
        assert(s@ =~= old(s)@ + hex3(v as int));
    }
}

/// Append four hex digits of `v`, most significant first.
fn push_hex4(s: &mut String, v: usize)
    ensures
        final(s)@ == old(s)@ + hex4(v as int),
{
    s.append(hex_digit_str((v / 4096) % 16));
    s.append(hex_digit_str((v / 256) % 16));
    s.append(hex_digit_str((v / 16) % 16));
    s.append(hex_digit_str(v % 16));
    proof {
        assert(s@ =~= old(s)@ + hex4(v as int));
    }
}

/// A decoded instruction. Register operands are 4-bit indices (0-15),
/// immediates are 8-bit, addresses are 12-bit, sprite row counts are 4-bit.
#[derive(Debug, Clone, Copy, PartialEq, Eq, Structural)]
pub enum ISA {
    /// (00E0) Clear the framebuffer
    CLS,
    /// (00EE) Return from subroutine
    RET,
    /// (0nnn) Legacy jump to machine code routine at nnn
    SYS(usize),
    /// (1nnn) Jump to address nnn
    JP(usize),
    /// (2nnn) Call subroutine at nnn
    CALL(usize),
    /// (3xnn) Skip next instruction if Vx == nn
    SKE(usize, u8),
    /// (4xnn) Skip next instruction if Vx != nn
    SKNE(usize, u8),
    /// (5xy0) Skip next instruction if Vx == Vy
    SKRE(usize, usize),
    /// (6xnn) Load Vx with nn
    LOAD(usize, u8),
    /// (7xnn) Add nn to Vx, wrapping, flags untouched
    ADD(usize, u8),
    /// (8xy0) Copy Vy into Vx
    MOVE(usize, usize),
    /// (8xy1) Vx = Vx | Vy
    OR(usize, usize),
    /// (8xy2) Vx = Vx & Vy
    AND(usize, usize),
    /// (8xy3) Vx = Vx ^ Vy
    XOR(usize, usize),
    /// (8xy4) Vx = Vx + Vy wrapping, VF = carry
    ADDR(usize, usize),
    /// (8xy5) Vx = Vx - Vy wrapping, VF = 1 iff no borrow
    SUB(usize, usize),
    /// (8xy6) VF = low bit of Vx, Vx = Vx >> 1 (y is ignored)
    SHR(usize, usize),
    /// (8xy7) Vx = Vy - Vx wrapping, VF = 1 iff no borrow
    SUBN(usize, usize),
    /// (8xyE) VF = high bit of Vx, Vx = Vx << 1 wrapping (y is ignored)
    SHL(usize, usize),
    /// (9xy0) Skip next instruction if Vx != Vy
    SKRNE(usize, usize),
    /// (Annn) Load the address register I with nnn
    LOADI(usize),
    /// (Bnnn) Jump to V0 + nnn
    JUMPI(usize),
    /// (Cxnn) Vx = random byte & nn
    RAND(usize, u8),
    /// (Dxyn) XOR-blit an 8-wide, n-tall sprite read from RAM at I
    DRAW(usize, usize, usize),
    /// (Ex9E) Skip next instruction if key Vx is pressed
    SKPR(usize),
    /// (ExA1) Skip next instruction if key Vx is not pressed
    SKUP(usize),
    /// (Fx07) Vx = DT
    MOVED(usize),
    /// (Fx0A) Wait for a key press and store its index in Vx
    KEYD(usize),
    /// (Fx15) DT = Vx
    LOADD(usize),
    /// (Fx18) ST = Vx
    LOADS(usize),
    /// (Fx1E) I = I + Vx
    ADDI(usize),
    /// (Fx29) I = address of the font sprite for the low nibble of Vx
    LDSPR(usize),
    /// (Fx33) Write the decimal digits of Vx at RAM[I..I+3]
    BCD(usize),
    /// (Fx55) Copy V0..=Vn into RAM starting at I
    STOR(usize),
    /// (Fx65) Copy RAM starting at I into V0..=Vn
    READ(usize),
    /// Unrecognized opcode, carrying the raw value for diagnostics
    NOP(u16),
}

/// The 16-bit opcode formed from two bytes read big-endian.
pub open spec fn opcode_of(hi: u8, lo: u8) -> u16 {
    (hi * 256 + lo) as u16
}

/// What `decode` returns for each of the 65536 opcode values: a total,
/// deterministic classification into exactly one variant.
pub open spec fn spec_decode(op: u16) -> ISA {
    let h = op / 4096;
    let nnn = (op % 4096) as usize;
    let x = ((op / 256) % 16) as usize;
    let y = ((op / 16) % 16) as usize;
    let kk = (op % 256) as u8;
    let n = (op % 16) as usize;
    if h == 0 {
        if op == 0x00E0 {
            ISA::CLS
        } else if op == 0x00EE {
            ISA::RET
        } else {
            ISA::SYS(nnn)
        }
    } else if h == 1 {
        ISA::JP(nnn)
    } else if h == 2 {
        ISA::CALL(nnn)
    } else if h == 3 {
        ISA::SKE(x, kk)
    } else if h == 4 {
        ISA::SKNE(x, kk)
    } else if h == 5 {
        ISA::SKRE(x, y)
    } else if h == 6 {
        ISA::LOAD(x, kk)
    } else if h == 7 {
        ISA::ADD(x, kk)
    } else if h == 8 {
        if n == 0x0 {
            ISA::MOVE(x, y)
        } else if n == 0x1 {
            ISA::OR(x, y)
        } else if n == 0x2 {
            ISA::AND(x, y)
        } else if n == 0x3 {
            ISA::XOR(x, y)
        } else if n == 0x4 {
            ISA::ADDR(x, y)
        } else if n == 0x5 {
            ISA::SUB(x, y)
        } else if n == 0x6 {
            ISA::SHR(x, y)
        } else if n == 0x7 {
            ISA::SUBN(x, y)
        } else if n == 0xE {
            ISA::SHL(x, y)
        } else {
            ISA::NOP(op)
        }
    } else if h == 9 {
        ISA::SKRNE(x, y)
    } else if h == 10 {
        ISA::LOADI(nnn)
    } else if h == 11 {
        ISA::JUMPI(nnn)
    } else if h == 12 {
        ISA::RAND(x, kk)
    } else if h == 13 {
        ISA::DRAW(x, y, n)
    } else if h == 14 {
        if kk == 0x9E {
            ISA::SKPR(x)
        } else if kk == 0xA1 {
            ISA::SKUP(x)
        } else {
            ISA::NOP(op)
        }
    } else {
        if kk == 0x07 {
            ISA::MOVED(x)
        } else if kk == 0x0A {
            ISA::KEYD(x)
        } else if kk == 0x15 {
            ISA::LOADD(x)
        } else if kk == 0x18 {
            ISA::LOADS(x)
        } else if kk == 0x1E {
            ISA::ADDI(x)
        } else if kk == 0x29 {
            ISA::LDSPR(x)
        } else if kk == 0x33 {
            ISA::BCD(x)
        } else if kk == 0x55 {
            ISA::STOR(x)
        } else if kk == 0x65 {
            ISA::READ(x)
        } else {
            ISA::NOP(op)
        }
    }
}

impl ISA {
    /// Every operand lies in the range its 4-, 8- or 12-bit opcode field
    /// allows. Decoding always produces such a value.
    pub open spec fn wf(self) -> bool {
        match self {
            ISA::CLS => true,
            ISA::RET => true,
            ISA::SYS(a) => a < 4096,
            ISA::JP(a) => a < 4096,
            ISA::CALL(a) => a < 4096,
            ISA::SKE(x, _) => x < 16,
            ISA::SKNE(x, _) => x < 16,
            ISA::SKRE(x, y) => x < 16 && y < 16,
            ISA::LOAD(x, _) => x < 16,
            ISA::ADD(x, _) => x < 16,
            ISA::MOVE(x, y) => x < 16 && y < 16,
            ISA::OR(x, y) => x < 16 && y < 16,
            ISA::AND(x, y) => x < 16 && y < 16,
            ISA::XOR(x, y) => x < 16 && y < 16,
            ISA::ADDR(x, y) => x < 16 && y < 16,
            ISA::SUB(x, y) => x < 16 && y < 16,
            ISA::SHR(x, y) => x < 16 && y < 16,
            ISA::SUBN(x, y) => x < 16 && y < 16,
            ISA::SHL(x, y) => x < 16 && y < 16,
            ISA::SKRNE(x, y) => x < 16 && y < 16,
            ISA::LOADI(a) => a < 4096,
            ISA::JUMPI(a) => a < 4096,
            ISA::RAND(x, _) => x < 16,
            ISA::DRAW(x, y, n) => x < 16 && y < 16 && n < 16,
            ISA::SKPR(x) => x < 16,
            ISA::SKUP(x) => x < 16,
            ISA::MOVED(x) => x < 16,
            ISA::KEYD(x) => x < 16,
            ISA::LOADD(x) => x < 16,
            ISA::LOADS(x) => x < 16,
            ISA::ADDI(x) => x < 16,
            ISA::LDSPR(x) => x < 16,
            ISA::BCD(x) => x < 16,
            ISA::STOR(x) => x < 16,
            ISA::READ(x) => x < 16,
            ISA::NOP(_) => true,
        }
    }

    /// The canonical mnemonic rendering: the mnemonic, then register
    /// operands as `r` plus one hex digit, addresses and immediates as `$`
    /// plus three hex digits, counts as `$` plus one digit, and a raw
    /// unrecognized opcode as `$` plus four digits.
    pub open spec fn spec_mnemonic(self) -> Seq<char> {
        match self {
            ISA::CLS => "CLS"@,
            ISA::RET => "RET"@,
            ISA::SYS(a) => "SYS $"@ + hex3(a as int),
            ISA::JP(a) => "JP $"@ + hex3(a as int),
            ISA::CALL(a) => "CALL $"@ + hex3(a as int),
            ISA::SKE(x, n) => "SKE r"@ + hex1(x as int) + ", $"@ + hex3(n as int),
            ISA::SKNE(x, n) => "SKNE r"@ + hex1(x as int) + ", $"@ + hex3(n as int),
            ISA::SKRE(x, y) => "SKRE r"@ + hex1(x as int) + ", r"@ + hex1(y as int),
            ISA::LOAD(x, n) => "LOAD r"@ + hex1(x as int) + ", $"@ + hex3(n as int),
            ISA::ADD(x, n) => "ADD r"@ + hex1(x as int) + ", $"@ + hex3(n as int),
            ISA::MOVE(x, y) => "MOVE r"@ + hex1(x as int) + ", r"@ + hex1(y as int),
            ISA::OR(x, y) => "OR r"@ + hex1(x as int) + ", r"@ + hex1(y as int),
            ISA::AND(x, y) => "AND r"@ + hex1(x as int) + ", r"@ + hex1(y as int),
            ISA::XOR(x, y) => "XOR r"@ + hex1(x as int) + ", r"@ + hex1(y as int),
            ISA::ADDR(x, y) => "ADDR r"@ + hex1(x as int) + ", r"@ + hex1(y as int),
            ISA::SUB(x, y) => "SUB r"@ + hex1(x as int) + ", r"@ + hex1(y as int),
            ISA::SHR(x, y) => "SHR r"@ + hex1(x as int) + ", r"@ + hex1(y as int),
            ISA::SUBN(x, y) => "SUBN r"@ + hex1(x as int) + ", r"@ + hex1(y as int),
            ISA::SHL(x, y) => "SHL r"@ + hex1(x as int) + ", r"@ + hex1(y as int),
            ISA::SKRNE(x, y) => "SKRNE r"@ + hex1(x as int) + ", r"@ + hex1(y as int),
            ISA::LOADI(a) => "LOADI $"@ + hex3(a as int),
            ISA::JUMPI(a) => "JUMPI $"@ + hex3(a as int),
            ISA::RAND(x, n) => "RAND r"@ + hex1(x as int) + ", $"@ + hex3(n as int),
            ISA::DRAW(x, y, n) => "DRAW r"@ + hex1(x as int) + ", r"@ + hex1(y as int) + ", $"@
                + hex1(n as int),
            ISA::SKPR(x) => "SKPR r"@ + hex1(x as int),
            ISA::SKUP(x) => "SKUP r"@ + hex1(x as int),
            ISA::MOVED(x) => "MOVED r"@ + hex1(x as int),
            ISA::KEYD(x) => "KEYD $"@ + hex3(x as int),
            ISA::LOADD(x) => "LOADD r"@ + hex1(x as int),
            ISA::LOADS(x) => "LOADS r"@ + hex1(x as int),
            ISA::ADDI(x) => "ADDI r"@ + hex1(x as int),
            ISA::LDSPR(x) => "LDSPR r"@ + hex1(x as int),
            ISA::BCD(x) => "BCD r"@ + hex1(x as int),
            ISA::STOR(x) => "STOR $"@ + hex1(x as int),
            ISA::READ(x) => "READ $"@ + hex1(x as int),
            ISA::NOP(c) => "NOP $"@ + hex4(c as int),
        }
    }

    /// Render the canonical mnemonic text.
    pub fn mnemonic(&self) -> (s: String)
        ensures
            s@ == self.spec_mnemonic(),
    {
        match *self {
            ISA::CLS => String::from_str("CLS"),
            ISA::RET => String::from_str("RET"),
            ISA::SYS(a) => {
                let mut s = String::from_str("SYS $");
                push_hex3(&mut s, a);
                s
            },
            ISA::JP(a) => {
                let mut s = String::from_str("JP $");
                push_hex3(&mut s, a);
                s
            },
            ISA::CALL(a) => {
                let mut s = String::from_str("CALL $");
                push_hex3(&mut s, a);
                s
            },
            ISA::SKE(x, n) => {
                let mut s = String::from_str("SKE r");
                push_hex1(&mut s, x);
                s.append(", $");
                push_hex3(&mut s, n as usize);
                s
            },
            ISA::SKNE(x, n) => {
                let mut s = String::from_str("SKNE r");
                push_hex1(&mut s, x);
                s.append(", $");
                push_hex3(&mut s, n as usize);
                s
            },
            ISA::SKRE(x, y) => {
                let mut s = String::from_str("SKRE r");
                push_hex1(&mut s, x);
                s.append(", r");
                push_hex1(&mut s, y);
                s
            },
            ISA::LOAD(x, n) => {
                let mut s = String::from_str("LOAD r");
                push_hex1(&mut s, x);
                s.append(", $");
                push_hex3(&mut s, n as usize);
                s
            },
            ISA::ADD(x, n) => {
                let mut s = String::from_str("ADD r");
                push_hex1(&mut s, x);
                s.append(", $");
                push_hex3(&mut s, n as usize);
                s
            },
            ISA::MOVE(x, y) => {
                let mut s = String::from_str("MOVE r");
                push_hex1(&mut s, x);
                s.append(", r");
                push_hex1(&mut s, y);
                s
            },
            ISA::OR(x, y) => {
                let mut s = String::from_str("OR r");
                push_hex1(&mut s, x);
                s.append(", r");
                push_hex1(&mut s, y);
                s
            },
            ISA::AND(x, y) => {
                let mut s = String::from_str("AND r");
                push_hex1(&mut s, x);
                s.append(", r");
                push_hex1(&mut s, y);
                s
            },
            ISA::XOR(x, y) => {
                let mut s = String::from_str("XOR r");
                push_hex1(&mut s, x);
                s.append(", r");
                push_hex1(&mut s, y);
                s
            },
            ISA::ADDR(x, y) => {
                let mut s = String::from_str("ADDR r");
                push_hex1(&mut s, x);
                s.append(", r");
                push_hex1(&mut s, y);
                s
            },
            ISA::SUB(x, y) => {
                let mut s = String::from_str("SUB r");
                push_hex1(&mut s, x);
                s.append(", r");
                push_hex1(&mut s, y);
                s
            },
            ISA::SHR(x, y) => {
                let mut s = String::from_str("SHR r");
                push_hex1(&mut s, x);
                s.append(", r");
                push_hex1(&mut s, y);
                s
            },
            ISA::SUBN(x, y) => {
                let mut s = String::from_str("SUBN r");
                push_hex1(&mut s, x);
                s.append(", r");
                push_hex1(&mut s, y);
                s
            },
            ISA::SHL(x, y) => {
                let mut s = String::from_str("SHL r");
                push_hex1(&mut s, x);
                s.append(", r");
                push_hex1(&mut s, y);
                s
            },
            ISA::SKRNE(x, y) => {
                let mut s = String::from_str("SKRNE r");
                push_hex1(&mut s, x);
                s.append(", r");
                push_hex1(&mut s, y);
                s
            },
            ISA::LOADI(a) => {
                let mut s = String::from_str("LOADI $");
                push_hex3(&mut s, a);
                s
            },
            ISA::JUMPI(a) => {
                let mut s = String::from_str("JUMPI $");
                push_hex3(&mut s, a);
                s
            },
            ISA::RAND(x, n) => {
                let mut s = String::from_str("RAND r");
                push_hex1(&mut s, x);
                s.append(", $");
                push_hex3(&mut s, n as usize);
                s
            },
            ISA::DRAW(x, y, n) => {
                let mut s = String::from_str("DRAW r");
                push_hex1(&mut s, x);
                s.append(", r");
                push_hex1(&mut s, y);
                s.append(", $");
                push_hex1(&mut s, n);
                s
            },
            ISA::SKPR(x) => {
                let mut s = String::from_str("SKPR r");
                push_hex1(&mut s, x);
                s
            },
            ISA::SKUP(x) => {
                let mut s = String::from_str("SKUP r");
                push_hex1(&mut s, x);
                s
            },
            ISA::MOVED(x) => {
                let mut s = String::from_str("MOVED r");
                push_hex1(&mut s, x);
                s
            },
            ISA::KEYD(x) => {
                let mut s = String::from_str("KEYD $");
                push_hex3(&mut s, x);
                s
            },
            ISA::LOADD(x) => {
                let mut s = String::from_str("LOADD r");
                push_hex1(&mut s, x);
                s
            },
            ISA::LOADS(x) => {
                let mut s = String::from_str("LOADS r");
                push_hex1(&mut s, x);
                s
            },
            ISA::ADDI(x) => {
                let mut s = String::from_str("ADDI r");
                push_hex1(&mut s, x);
                s
            },
            ISA::LDSPR(x) => {
                let mut s = String::from_str("LDSPR r");
                push_hex1(&mut s, x);
                s
            },
            ISA::BCD(x) => {
                let mut s = String::from_str("BCD r");
                push_hex1(&mut s, x);
                s
            },
            ISA::STOR(x) => {
                let mut s = String::from_str("STOR $");
                push_hex1(&mut s, x);
                s
            },
            ISA::READ(x) => {
                let mut s = String::from_str("READ $");
                push_hex1(&mut s, x);
                s
            },
            ISA::NOP(c) => {
                let mut s = String::from_str("NOP $");
                push_hex4(&mut s, c as usize);
                s
            },
        }
    }
}

/// Decoding keeps every operand inside its opcode field's range.
pub proof fn lemma_spec_decode_wf(op: u16)
    ensures
        spec_decode(op).wf(),
{
}

/// Classify a 16-bit opcode into exactly one instruction variant.
fn decode_op(op: u16) -> (r: ISA)
    ensures
        r == spec_decode(op),
{
    let h = op / 4096;
    let nnn = (op % 4096) as usize;
    let x = ((op / 256) % 16) as usize;
    let y = ((op / 16) % 16) as usize;
    let kk = (op % 256) as u8;
    let n = (op % 16) as usize;
    if h == 0 {
        if op == 0x00E0 {
            ISA::CLS
        } else if op == 0x00EE {
            ISA::RET
        } else {
            ISA::SYS(nnn)
        }
    } else if h == 1 {
        ISA::JP(nnn)
    } else if h == 2 {
        ISA::CALL(nnn)
    } else if h == 3 {
        ISA::SKE(x, kk)
    } else if h == 4 {
        ISA::SKNE(x, kk)
    } else if h == 5 {
        ISA::SKRE(x, y)
    } else if h == 6 {
        ISA::LOAD(x, kk)
    } else if h == 7 {
        ISA::ADD(x, kk)
    } else if h == 8 {
        if n == 0x0 {
            ISA::MOVE(x, y)
        } else if n == 0x1 {
            ISA::OR(x, y)
        } else if n == 0x2 {
            ISA::AND(x, y)
        } else if n == 0x3 {
            ISA::XOR(x, y)
        } else if n == 0x4 {
            ISA::ADDR(x, y)
        } else if n == 0x5 {
            ISA::SUB(x, y)
        } else if n == 0x6 {
            ISA::SHR(x, y)
        } else if n == 0x7 {
            ISA::SUBN(x, y)
        } else if n == 0xE {
            ISA::SHL(x, y)
        } else {
            ISA::NOP(op)
        }
    } else if h == 9 {
        ISA::SKRNE(x, y)
    } else if h == 10 {
        ISA::LOADI(nnn)
    } else if h == 11 {
        ISA::JUMPI(nnn)
    } else if h == 12 {
        ISA::RAND(x, kk)
    } else if h == 13 {
        ISA::DRAW(x, y, n)
    } else if h == 14 {
        if kk == 0x9E {
            ISA::SKPR(x)
        } else if kk == 0xA1 {
            ISA::SKUP(x)
        } else {
            ISA::NOP(op)
        }
    } else {
        if kk == 0x07 {
            ISA::MOVED(x)
        } else if kk == 0x0A {
            ISA::KEYD(x)
        } else if kk == 0x15 {
            ISA::LOADD(x)
        } else if kk == 0x18 {
            ISA::LOADS(x)
        } else if kk == 0x1E {
            ISA::ADDI(x)
        } else if kk == 0x29 {
            ISA::LDSPR(x)
        } else if kk == 0x33 {
            ISA::BCD(x)
        } else if kk == 0x55 {
            ISA::STOR(x)
        } else if kk == 0x65 {
            ISA::READ(x)
        } else {
            ISA::NOP(op)
        }
    }
}

/// Combine the first two bytes of the window big-endian and classify the
/// result. Decoding is total over its 16-bit domain and has no side effects;
/// only a window of fewer than two bytes yields no instruction.
pub fn decode(bytes: &[u8]) -> (r: Option<ISA>)
    ensures
        bytes@.len() >= 2 ==> r == Some(spec_decode(opcode_of(bytes@[0], bytes@[1]))),
        bytes@.len() < 2 ==> r is None,
{
    if bytes.len() < 2 {
        return None;
    }
    let hi = bytes[0];
    let lo = bytes[1];
    let op: u16 = (hi as u16) * 256 + (lo as u16);
    Some(decode_op(op))
}

} // verus!
