//! The machine state (CPU register file, memory, call stack, framebuffer,
//! key pad), its lifecycle (construction, reset, program load, timer tick),
//! and the execution engine: fetch at PC, decode, and interpret one
//! instruction per `step`, mutating the state in place.
//!
//! The classic machine leaves out-of-range accesses undefined (an address
//! register past the RAM end, a key number past the pad, an over-deep call
//! chain or an unmatched return). Here every such access wraps: RAM
//! addresses are taken modulo the RAM size, key indices modulo the pad
//! size, and the stack pointer moves modulo the stack depth. The address
//! register wraps at 16 bits, its stored width.

use vstd::prelude::*;

use rand::Rng;

use crate::isa::ISA;
use crate::isa::decode;
use crate::isa::spec_decode;
use crate::isa::opcode_of;
use crate::isa::lemma_spec_decode_wf;

verus! {

/// The fixed RAM address where loaded programs begin and where PC points
/// after a reset.
pub const ENTRY: usize = 0x200;

/// Call depth of the return-address stack.
pub const STACK_DEPTH: usize = 24;

/// The CPU register file: 16 general-purpose 8-bit registers (register 15
/// doubles as the flags register), the address register I (logically 12-bit,
/// stored widened), two 8-bit countdown timers, the program counter and the
/// stack pointer.
pub struct CPU {
    /// General-purpose registers V0..VF.
    pub r: [u8; 16],
    /// Address register.
    pub i: usize,
    /// Delay timer.
    pub dt: u8,
    /// Sound timer.
    pub st: u8,
    /// Program counter.
    pub pc: usize,
    /// Stack pointer: an index into the call stack.
    pub sp: usize,
}

/// A countdown timer value after one tick: decremented by at most 1, never
/// below zero.
pub open spec fn ticked(v: u8) -> u8 {
    if v > 0 {
        (v - 1) as u8
    } else {
        0
    }
}

/// Every sequence element up to `n` is zero.
pub open spec fn zeroed(s: Seq<u8>, n: int) -> bool {
    s.len() == n && forall|k: int| 0 <= k < n ==> s[k] == 0
}

impl Default for CPU {
    /// A zeroed register file.
    fn default() -> (c: CPU)
        ensures
            zeroed(c.r@, 16),
            c.i == 0 && c.dt == 0 && c.st == 0 && c.pc == 0 && c.sp == 0,
    {
        CPU { r: [0; 16], i: 0, dt: 0, st: 0, pc: 0, sp: 0 }
    }
}

/// The memory system: the 80-byte interpreter font table, 4096 bytes of
/// addressable RAM, a 24-deep stack of 16-bit return addresses, and a 64x32
/// monochrome framebuffer, one byte per pixel (non-zero means lit), row-major.
pub struct Memory {
    /// Font table: 16 glyphs of 5 bytes each, glyphs 0-F.
    pub rom: [u8; 80],
    /// Addressable RAM.
    pub ram: [u8; 4096],
    /// Call stack of return addresses.
    pub stack: [u16; 24],
    /// Framebuffer, 64 pixels wide and 32 tall.
    pub fb: [u8; 2048],
}

/// The interpreter font table: 16 glyphs of 5 sprite rows each, glyphs 0-F.
pub open spec fn font() -> Seq<u8> {
    seq![
        0xF0u8, 0x90, 0x90, 0x90, 0xF0, // 0
        0x20, 0x60, 0x20, 0x20, 0x70, // 1
        0xF0, 0x10, 0xF0, 0x80, 0xF0, // 2
        0xF0, 0x10, 0xF0, 0x10, 0xF0, // 3
        0x90, 0x90, 0xF0, 0x10, 0x10, // 4
        0xF0, 0x80, 0xF0, 0x10, 0xF0, // 5
        0xF0, 0x80, 0xF0, 0x90, 0xF0, // 6
        0xF0, 0x10, 0x20, 0x40, 0x40, // 7
        0xF0, 0x90, 0xF0, 0x90, 0xF0, // 8
        0xF0, 0x90, 0xF0, 0x10, 0xF0, // 9
        0xF0, 0x90, 0xF0, 0x90, 0x90, // A
        0xE0, 0x90, 0xE0, 0x90, 0xE0, // B
        0xF0, 0x80, 0x80, 0x80, 0xF0, // C
        0xE0, 0x90, 0x90, 0x90, 0xE0, // D
        0xF0, 0x80, 0xF0, 0x80, 0xF0, // E
        0xF0, 0x80, 0xF0, 0x80, 0x80, // F
    ]
}

impl Default for Memory {
    /// RAM, stack and framebuffer zeroed; the font table present in `rom`
    /// but not yet copied into RAM.
    fn default() -> (m: Memory)
        ensures
            m.rom@ == font(),
            zeroed(m.ram@, 4096),
            m.stack@ == Seq::new(24, |k: int| 0u16),
            zeroed(m.fb@, 2048),
    {
        let m = Memory {
            rom: [
                0xF0, 0x90, 0x90, 0x90, 0xF0, // 0
                0x20, 0x60, 0x20, 0x20, 0x70, // 1
                0xF0, 0x10, 0xF0, 0x80, 0xF0, // 2
                0xF0, 0x10, 0xF0, 0x10, 0xF0, // 3
                0x90, 0x90, 0xF0, 0x10, 0x10, // 4
                0xF0, 0x80, 0xF0, 0x10, 0xF0, // 5
                0xF0, 0x80, 0xF0, 0x90, 0xF0, // 6
                0xF0, 0x10, 0x20, 0x40, 0x40, // 7
                0xF0, 0x90, 0xF0, 0x90, 0xF0, // 8
                0xF0, 0x90, 0xF0, 0x10, 0xF0, // 9
                0xF0, 0x90, 0xF0, 0x90, 0x90, // A
                0xE0, 0x90, 0xE0, 0x90, 0xE0, // B
                0xF0, 0x80, 0x80, 0x80, 0xF0, // C
                0xE0, 0x90, 0x90, 0x90, 0xE0, // D
                0xF0, 0x80, 0xF0, 0x80, 0xF0, // E
                0xF0, 0x80, 0xF0, 0x80, 0x80, // F
            ],
            ram: [0; 4096],
            stack: [0; 24],
            fb: [0; 2048],
        };
        proof {
            assert(m.stack@ =~= Seq::new(24, |k: int| 0u16));
            assert(m.rom@ =~= font());
        }
        m
    }
}

/// The whole machine: CPU, memory and the 16 key states, exclusively owned
/// by one external driver.
pub struct Machine {
    /// Key states, indexed 0-15; true means pressed.
    pub keys: [bool; 16],
    /// The register file.
    pub cpu: CPU,
    /// The memory system.
    pub memory: Memory,
}

impl Machine {
    /// The stack pointer stays inside the stack; every operation here
    /// establishes or preserves this.
    pub open spec fn wf(self) -> bool {
        self.cpu.sp < STACK_DEPTH
    }

    /// A fresh machine: zeroed CPU and keys, memory holding only the font
    /// table (not yet copied into RAM).
    pub fn new() -> (m: Machine)
        ensures
            m.wf(),
            zeroed(m.cpu.r@, 16),
            m.cpu.i == 0 && m.cpu.dt == 0 && m.cpu.st == 0 && m.cpu.pc == 0 && m.cpu.sp == 0,
            m.memory.rom@ == font(),
            zeroed(m.memory.ram@, 4096),
            m.memory.stack@ == Seq::new(24, |k: int| 0u16),
            zeroed(m.memory.fb@, 2048),
            m.keys@ == Seq::new(16, |k: int| false),
    {
        let m = Machine { cpu: CPU::default(), memory: Memory::default(), keys: [false; 16] };
        proof {
            assert(m.keys@ =~= Seq::new(16, |k: int| false));
        }
        m
    }

    /// Read-only view of the register file.
    pub fn cpu(&self) -> (c: &CPU)
        ensures
            *c == self.cpu,
    {
        &self.cpu
    }

    /// Read-only view of the memory system.
    pub fn mem(&self) -> (m: &Memory)
        ensures
            *m == self.memory,
    {
        &self.memory
    }

    /// Jump to the entry point: PC at the entry offset, SP at the last stack
    /// slot, and that slot seeded with the entry offset, so that an early RET
    /// with no prior CALL harmlessly re-enters at the start.
    pub fn reset(&mut self)
        ensures
            final(self).wf(),
            final(self).cpu.pc == ENTRY,
            final(self).cpu.sp == STACK_DEPTH - 1,
            final(self).memory.stack@ == old(self).memory.stack@.update(STACK_DEPTH - 1, ENTRY as u16),
            final(self).cpu.r == old(self).cpu.r,
            final(self).cpu.i == old(self).cpu.i,
            final(self).cpu.dt == old(self).cpu.dt,
            final(self).cpu.st == old(self).cpu.st,
            final(self).memory.rom == old(self).memory.rom,
            final(self).memory.ram == old(self).memory.ram,
            final(self).memory.fb == old(self).memory.fb,
            final(self).keys == old(self).keys,
    {
        self.cpu.pc = ENTRY;
        self.cpu.sp = STACK_DEPTH - 1;
        self.memory.stack[self.cpu.sp] = ENTRY as u16;
    }

    /// Reset, copy the font table into RAM's low region, then copy the
    /// program bytes into RAM starting at the entry offset, truncating at
    /// the RAM end (an over-long program keeps its first 3584 bytes);
    /// returns the byte count copied.
    pub fn load(&mut self, program: &[u8]) -> (n: usize)
        ensures
            final(self).wf(),
            n == if program@.len() <= 3584 {
                program@.len() as int
            } else {
                3584int
            },
            final(self).cpu.pc == ENTRY,
            final(self).cpu.sp == STACK_DEPTH - 1,
            final(self).memory.stack@ == old(self).memory.stack@.update(
                STACK_DEPTH - 1,
                ENTRY as u16,
            ),
            final(self).cpu.r == old(self).cpu.r,
            final(self).cpu.i == old(self).cpu.i,
            final(self).cpu.dt == old(self).cpu.dt,
            final(self).cpu.st == old(self).cpu.st,
            final(self).memory.rom == old(self).memory.rom,
            final(self).memory.fb == old(self).memory.fb,
            final(self).keys == old(self).keys,
            forall|k: int| 0 <= k < 80 ==> final(self).memory.ram@[k] == old(self).memory.rom@[k],
            forall|k: int| 0 <= k < n ==> final(self).memory.ram@[0x200 + k] == program@[k],
            forall|k: int|
                80 <= k < 0x200 ==> final(self).memory.ram@[k] == old(self).memory.ram@[k],
            forall|k: int|
                0x200 + n <= k < 4096 ==> final(self).memory.ram@[k] == old(self).memory.ram@[k],
    {
        self.reset();
        let mut k: usize = 0;
        while k < 80
            invariant
                k <= 80,
                self.cpu == (CPU {
                    pc: ENTRY,
                    sp: (STACK_DEPTH - 1) as usize,
                    ..old(self).cpu
                }),
                self.memory.rom == old(self).memory.rom,
                self.memory.fb == old(self).memory.fb,
                self.memory.stack@ == old(self).memory.stack@.update(
                    STACK_DEPTH - 1,
                    ENTRY as u16,
                ),
                self.keys == old(self).keys,
                forall|j: int| 0 <= j < k ==> self.memory.ram@[j] == old(self).memory.rom@[j],
                forall|j: int| k <= j < 4096 ==> self.memory.ram@[j] == old(self).memory.ram@[j],
            decreases 80 - k,
        {
            let b = self.memory.rom[k];
            self.memory.ram[k] = b;
            k += 1;
        }
        let count = if program.len() > 3584 {
            3584
        } else {
            program.len()
        };
        let mut j: usize = 0;
        while j < count
            invariant
                j <= count,
                count <= 3584,
                count <= program@.len(),
                self.cpu == (CPU {
                    pc: ENTRY,
                    sp: (STACK_DEPTH - 1) as usize,
                    ..old(self).cpu
                }),
                self.memory.rom == old(self).memory.rom,
                self.memory.fb == old(self).memory.fb,
                self.memory.stack@ == old(self).memory.stack@.update(
                    STACK_DEPTH - 1,
                    ENTRY as u16,
                ),
                self.keys == old(self).keys,
                forall|p: int| 0 <= p < 80 ==> self.memory.ram@[p] == old(self).memory.rom@[p],
                forall|p: int| 0 <= p < j ==> self.memory.ram@[0x200 + p] == program@[p],
                forall|p: int| 80 <= p < 0x200 ==> self.memory.ram@[p] == old(self).memory.ram@[p],
                forall|p: int|
                    0x200 + j <= p < 4096 ==> self.memory.ram@[p] == old(self).memory.ram@[p],
            decreases count - j,
        {
            let b = program[j];
            self.memory.ram[0x200 + j] = b;
            j += 1;
        }
        count
    }

    /// Decrement each timer by at most 1, never below 0; a tick at zero is a
    /// no-op for that timer.
    pub fn tick(&mut self)
        ensures
            final(self).cpu.dt == ticked(old(self).cpu.dt),
            final(self).cpu.st == ticked(old(self).cpu.st),
            final(self).cpu.r == old(self).cpu.r,
            final(self).cpu.i == old(self).cpu.i,
            final(self).cpu.pc == old(self).cpu.pc,
            final(self).cpu.sp == old(self).cpu.sp,
            final(self).memory == old(self).memory,
            final(self).keys == old(self).keys,
    {
        if self.cpu.dt > 0 {
            self.cpu.dt = self.cpu.dt - 1;
        }
        if self.cpu.st > 0 {
            self.cpu.st = self.cpu.st - 1;
        }
    }

    /// Record a key press or release delivered by the external driver.
    pub fn set_key(&mut self, key: usize, pressed: bool)
        requires
            key < 16,
        ensures
            final(self).keys@ == old(self).keys@.update(key as int, pressed),
            final(self).cpu == old(self).cpu,
            final(self).memory == old(self).memory,
    {
        self.keys[key] = pressed;
    }
}

/// A failure reported by `step`; neither corrupts the machine state.
#[derive(Debug, Clone, Copy, PartialEq, Eq, Structural)]
pub enum StepError {
    /// PC addresses fewer than two remaining RAM bytes: nothing to decode.
    Fetch,
    /// A decoded catch-all instruction reached execution; carries the raw
    /// opcode and the faulting address.
    InvalidOpcode { opcode: u16, addr: usize },
}

/// The 16-bit opcode fetched big-endian at address `pc`.
pub open spec fn opcode_at(ram: Seq<u8>, pc: int) -> u16 {
    opcode_of(ram[pc], ram[pc + 1])
}

/// a + b wrapped at 8 bits.
pub open spec fn add_wrap(a: u8, b: u8) -> u8 {
    ((a + b) % 256) as u8
}

/// a - b wrapped at 8 bits.
pub open spec fn sub_wrap(a: u8, b: u8) -> u8 {
    if a >= b {
        (a - b) as u8
    } else {
        (a - b + 256) as u8
    }
}

/// The RAM address an instruction touches for offset `k` from the address
/// register `ir`: wrapped modulo the RAM size.
pub open spec fn ram_addr(ir: int, k: int) -> int {
    (ir % 4096 + k) % 4096
}

/// The weight of sprite bit `bi` within a row byte: bit 0 is the leftmost
/// pixel, the most significant bit.
pub open spec fn bit_weight(bi: int) -> u8 {
    if bi == 0 {
        128
    } else if bi == 1 {
        64
    } else if bi == 2 {
        32
    } else if bi == 3 {
        16
    } else if bi == 4 {
        8
    } else if bi == 5 {
        4
    } else if bi == 6 {
        2
    } else {
        1
    }
}

/// Whether sprite bit `bi` of a row byte is set.
pub open spec fn bit_of(row: u8, bi: int) -> bool {
    (row / bit_weight(bi)) % 2 == 1
}

/// Sprite pixel (bi, rj) is drawn: its bit is set in the sprite row read
/// from RAM at the address register plus the row number.
pub open spec fn sprite_on(ram: Seq<u8>, ir: int, bi: int, rj: int) -> bool {
    bit_of(ram[ram_addr(ir, rj)], bi)
}

/// Framebuffer index where sprite bit (bi, rj) of a sprite drawn at base
/// (px, py) lands: each pixel wraps toroidally on its own, modulo 64
/// horizontally and 32 vertically.
pub open spec fn pix_at(px: int, py: int, bi: int, rj: int) -> int {
    64 * ((py + rj) % 32) + (px + bi) % 64
}

/// Some pair among the rows below `j`, or in row `j` below bit `ii`, is the
/// pair (bi, rj). The pairs a sprite draw has processed so far; the whole
/// sprite is the case j == n, ii == 0.
pub open spec fn pair_before(bi: int, rj: int, j: int, ii: int) -> bool {
    (0 <= rj < j && 0 <= bi < 8) || (rj == j && 0 <= bi < ii)
}

/// Some processed drawn sprite pixel lands on framebuffer index `p`.
pub open spec fn draw_covers(
    ram: Seq<u8>,
    ir: int,
    px: int,
    py: int,
    j: int,
    ii: int,
    p: int,
) -> bool {
    exists|bi: int, rj: int|
        pair_before(bi, rj, j, ii) && #[trigger] sprite_on(ram, ir, bi, rj) && pix_at(
            px,
            py,
            bi,
            rj,
        ) == p
}

/// Some processed drawn sprite pixel lands on an already-lit framebuffer
/// byte: the collision the draw instruction reports in VF.
pub open spec fn draw_collides(
    fb0: Seq<u8>,
    ram: Seq<u8>,
    ir: int,
    px: int,
    py: int,
    j: int,
    ii: int,
) -> bool {
    exists|bi: int, rj: int|
        pair_before(bi, rj, j, ii) && #[trigger] sprite_on(ram, ir, bi, rj) && fb0[pix_at(
            px,
            py,
            bi,
            rj,
        )] != 0
}

/// RAM after copying the first `cnt` registers, V0 first, to consecutive
/// wrapped addresses starting at the address register.
pub open spec fn stored_ram(ram: Seq<u8>, r: Seq<u8>, ir: int, cnt: int) -> Seq<u8>
    decreases cnt,
{
    if cnt <= 0 {
        ram
    } else {
        stored_ram(ram, r, ir, cnt - 1).update(ram_addr(ir, cnt - 1), r[cnt - 1])
    }
}

/// Registers after loading the first `cnt` of them, V0 first, from
/// consecutive wrapped RAM addresses starting at the address register.
pub open spec fn read_regs(r: Seq<u8>, ram: Seq<u8>, ir: int, cnt: int) -> Seq<u8>
    decreases cnt,
{
    if cnt <= 0 {
        r
    } else {
        read_regs(r, ram, ir, cnt - 1).update(cnt - 1, ram[ram_addr(ir, cnt - 1)])
    }
}

/// Key index k is the lowest-numbered pressed key.
pub open spec fn lowest_pressed(keys: Seq<bool>, k: int) -> bool {
    0 <= k < 16 && keys[k] && (forall|j: int| 0 <= j < k ==> !keys[j])
}

/// Some key is pressed.
pub open spec fn any_pressed(keys: Seq<bool>) -> bool {
    exists|k: int| 0 <= k < 16 && keys[k]
}

/// Memory and keys untouched.
pub open spec fn frame_all(pre: Machine, post: Machine) -> bool {
    post.memory == pre.memory && post.keys == pre.keys
}

/// Everything but the framebuffer untouched.
pub open spec fn frame_but_fb(pre: Machine, post: Machine) -> bool {
    post.memory.rom == pre.memory.rom && post.memory.ram == pre.memory.ram && post.memory.stack
        == pre.memory.stack && post.keys == pre.keys
}

/// Everything but RAM untouched.
pub open spec fn frame_but_ram(pre: Machine, post: Machine) -> bool {
    post.memory.rom == pre.memory.rom && post.memory.fb == pre.memory.fb && post.memory.stack
        == pre.memory.stack && post.keys == pre.keys
}

/// Everything but the stack untouched.
pub open spec fn frame_but_stack(pre: Machine, post: Machine) -> bool {
    post.memory.rom == pre.memory.rom && post.memory.ram == pre.memory.ram && post.memory.fb
        == pre.memory.fb && post.keys == pre.keys
}

/// CPU scalar fields other than the program counter untouched.
pub open spec fn cpu_rest_same(c: CPU, d: CPU) -> bool {
    d.i == c.i && d.dt == c.dt && d.st == c.st && d.sp == c.sp
}

/// What executing one decoded instruction does to the machine: the relation
/// between the state before (`pre`) and after (`post`). `step` establishes
/// this for the instruction it fetched and decoded.
pub open spec fn exec_post(pre: Machine, post: Machine, inst: ISA) -> bool {
    let c = pre.cpu;
    let m = pre.memory;
    match inst {
        ISA::CLS => {
            &&& post.cpu.r@ == c.r@
            &&& cpu_rest_same(c, post.cpu)
            &&& post.cpu.pc == c.pc + 2
            &&& zeroed(post.memory.fb@, 2048)
            &&& frame_but_fb(pre, post)
        },
        ISA::RET => {
            &&& post.cpu.r@ == c.r@
            &&& post.cpu.i == c.i && post.cpu.dt == c.dt && post.cpu.st == c.st
            &&& post.cpu.pc == m.stack@[c.sp as int]
            &&& post.cpu.sp == if c.sp == 23 {
                0int
            } else {
                c.sp + 1
            }
            &&& frame_all(pre, post)
        },
        ISA::SYS(a) => {
            &&& post.cpu.r@ == c.r@
            &&& cpu_rest_same(c, post.cpu)
            &&& post.cpu.pc == a
            &&& frame_all(pre, post)
        },
        ISA::JP(a) => {
            &&& post.cpu.r@ == c.r@
            &&& cpu_rest_same(c, post.cpu)
            &&& post.cpu.pc == a
            &&& frame_all(pre, post)
        },
        ISA::CALL(a) => {
            let sp2 = if c.sp == 0 {
                23int
            } else {
                c.sp - 1
            };
            &&& post.cpu.r@ == c.r@
            &&& post.cpu.i == c.i && post.cpu.dt == c.dt && post.cpu.st == c.st
            &&& post.cpu.sp == sp2
            &&& post.cpu.pc == a
            &&& post.memory.stack@ == m.stack@.update(sp2, (c.pc + 2) as u16)
            &&& frame_but_stack(pre, post)
        },
        ISA::SKE(x, kk) => {
            &&& post.cpu.r@ == c.r@
            &&& cpu_rest_same(c, post.cpu)
            &&& post.cpu.pc == c.pc + (if c.r@[x as int] == kk {
                4int
            } else {
                2int
            })
            &&& frame_all(pre, post)
        },
        ISA::SKNE(x, kk) => {
            &&& post.cpu.r@ == c.r@
            &&& cpu_rest_same(c, post.cpu)
            &&& post.cpu.pc == c.pc + (if c.r@[x as int] != kk {
                4int
            } else {
                2int
            })
            &&& frame_all(pre, post)
        },
        ISA::SKRE(x, y) => {
            &&& post.cpu.r@ == c.r@
            &&& cpu_rest_same(c, post.cpu)
            &&& post.cpu.pc == c.pc + (if c.r@[x as int] == c.r@[y as int] {
                4int
            } else {
                2int
            })
            &&& frame_all(pre, post)
        },
        ISA::LOAD(x, kk) => {
            &&& post.cpu.r@ == c.r@.update(x as int, kk)
            &&& cpu_rest_same(c, post.cpu)
            &&& post.cpu.pc == c.pc + 2
            &&& frame_all(pre, post)
        },
        ISA::ADD(x, kk) => {
            &&& post.cpu.r@ == c.r@.update(x as int, add_wrap(c.r@[x as int], kk))
            &&& cpu_rest_same(c, post.cpu)
            &&& post.cpu.pc == c.pc + 2
            &&& frame_all(pre, post)
        },
        ISA::MOVE(x, y) => {
            &&& post.cpu.r@ == c.r@.update(x as int, c.r@[y as int])
            &&& cpu_rest_same(c, post.cpu)
            &&& post.cpu.pc == c.pc + 2
            &&& frame_all(pre, post)
        },
        ISA::OR(x, y) => {
            &&& post.cpu.r@ == c.r@.update(x as int, c.r@[x as int] | c.r@[y as int])
            &&& cpu_rest_same(c, post.cpu)
            &&& post.cpu.pc == c.pc + 2
            &&& frame_all(pre, post)
        },
        ISA::AND(x, y) => {
            &&& post.cpu.r@ == c.r@.update(x as int, c.r@[x as int] & c.r@[y as int])
            &&& cpu_rest_same(c, post.cpu)
            &&& post.cpu.pc == c.pc + 2
            &&& frame_all(pre, post)
        },
        ISA::XOR(x, y) => {
            &&& post.cpu.r@ == c.r@.update(x as int, c.r@[x as int] ^ c.r@[y as int])
            &&& cpu_rest_same(c, post.cpu)
            &&& post.cpu.pc == c.pc + 2
            &&& frame_all(pre, post)
        },
        ISA::ADDR(x, y) => {
            let s = c.r@[x as int] + c.r@[y as int];
            let flag: u8 = if s >= 256 {
                1
            } else {
                0
            };
            &&& post.cpu.r@ == c.r@.update(x as int, (s % 256) as u8).update(15, flag)
            &&& cpu_rest_same(c, post.cpu)
            &&& post.cpu.pc == c.pc + 2
            &&& frame_all(pre, post)
        },
        ISA::SUB(x, y) => {
            let a = c.r@[x as int];
            let b = c.r@[y as int];
            let flag: u8 = if a >= b {
                1
            } else {
                0
            };
            &&& post.cpu.r@ == c.r@.update(x as int, sub_wrap(a, b)).update(15, flag)
            &&& cpu_rest_same(c, post.cpu)
            &&& post.cpu.pc == c.pc + 2
            &&& frame_all(pre, post)
        },
        ISA::SHR(x, _y) => {
            // the y operand is ignored: a legacy quirk of this machine
            let r1 = c.r@.update(15, (c.r@[x as int] % 2) as u8);
            &&& post.cpu.r@ == r1.update(x as int, r1[x as int] / 2)
            &&& cpu_rest_same(c, post.cpu)
            &&& post.cpu.pc == c.pc + 2
            &&& frame_all(pre, post)
        },
        ISA::SUBN(x, y) => {
            let a = c.r@[x as int];
            let b = c.r@[y as int];
            let flag: u8 = if b >= a {
                1
            } else {
                0
            };
            &&& post.cpu.r@ == c.r@.update(x as int, sub_wrap(b, a)).update(15, flag)
            &&& cpu_rest_same(c, post.cpu)
            &&& post.cpu.pc == c.pc + 2
            &&& frame_all(pre, post)
        },
        ISA::SHL(x, _y) => {
            // the y operand is ignored: a legacy quirk of this machine
            let r1 = c.r@.update(15, (c.r@[x as int] / 128) as u8);
            &&& post.cpu.r@ == r1.update(x as int, add_wrap(r1[x as int], r1[x as int]))
            &&& cpu_rest_same(c, post.cpu)
            &&& post.cpu.pc == c.pc + 2
            &&& frame_all(pre, post)
        },
        ISA::SKRNE(x, y) => {
            &&& post.cpu.r@ == c.r@
            &&& cpu_rest_same(c, post.cpu)
            &&& post.cpu.pc == c.pc + (if c.r@[x as int] != c.r@[y as int] {
                4int
            } else {
                2int
            })
            &&& frame_all(pre, post)
        },
        ISA::LOADI(a) => {
            &&& post.cpu.r@ == c.r@
            &&& post.cpu.i == a
            &&& post.cpu.dt == c.dt && post.cpu.st == c.st && post.cpu.sp == c.sp
            &&& post.cpu.pc == c.pc + 2
            &&& frame_all(pre, post)
        },
        ISA::JUMPI(a) => {
            // always offsets by V0, whatever the operand nibble: a legacy quirk
            &&& post.cpu.r@ == c.r@
            &&& cpu_rest_same(c, post.cpu)
            &&& post.cpu.pc == c.r@[0] + a
            &&& frame_all(pre, post)
        },
        ISA::RAND(x, kk) => {
            &&& exists|v: u8| v < 255 && post.cpu.r@ == c.r@.update(x as int, v & kk)
            &&& cpu_rest_same(c, post.cpu)
            &&& post.cpu.pc == c.pc + 2
            &&& frame_all(pre, post)
        },
        ISA::DRAW(x, y, n) => {
            // VF is zeroed before the base coordinates are read, so a draw
            // whose x or y operand is 15 reads the zeroed flag register
            let r0 = c.r@.update(15, 0u8);
            let px = r0[x as int] as int;
            let py = r0[y as int] as int;
            let collides = draw_collides(m.fb@, m.ram@, c.i as int, px, py, n as int, 0);
            &&& post.cpu.r@ == if collides {
                r0.update(15, 1u8)
            } else {
                r0
            }
            &&& cpu_rest_same(c, post.cpu)
            &&& post.cpu.pc == c.pc + 2
            &&& post.memory.fb@.len() == 2048
            &&& forall|bi: int, rj: int|
                0 <= bi < 8 && 0 <= rj < n && #[trigger] sprite_on(m.ram@, c.i as int, bi, rj)
                    ==> post.memory.fb@[pix_at(px, py, bi, rj)] == !m.fb@[pix_at(px, py, bi, rj)]
            &&& forall|p: int|
                0 <= p < 2048 && !draw_covers(m.ram@, c.i as int, px, py, n as int, 0, p)
                    ==> post.memory.fb@[p] == m.fb@[p]
            &&& frame_but_fb(pre, post)
        },
        ISA::SKPR(x) => {
            &&& post.cpu.r@ == c.r@
            &&& cpu_rest_same(c, post.cpu)
            &&& post.cpu.pc == c.pc + (if pre.keys@[(c.r@[x as int] % 16) as int] {
                4int
            } else {
                2int
            })
            &&& frame_all(pre, post)
        },
        ISA::SKUP(x) => {
            &&& post.cpu.r@ == c.r@
            &&& cpu_rest_same(c, post.cpu)
            &&& post.cpu.pc == c.pc + (if !pre.keys@[(c.r@[x as int] % 16) as int] {
                4int
            } else {
                2int
            })
            &&& frame_all(pre, post)
        },
        ISA::MOVED(x) => {
            &&& post.cpu.r@ == c.r@.update(x as int, c.dt)
            &&& cpu_rest_same(c, post.cpu)
            &&& post.cpu.pc == c.pc + 2
            &&& frame_all(pre, post)
        },
        ISA::KEYD(x) => {
            // the one instruction that does not unconditionally advance PC:
            // with no key pressed the whole state is left untouched, and the
            // caller retries at the same PC once key state changes
            if any_pressed(pre.keys@) {
                &&& exists|k: int|
                    #[trigger] lowest_pressed(pre.keys@, k) && post.keys@ == pre.keys@.update(
                        k,
                        false,
                    ) && post.cpu.r@ == c.r@.update(x as int, k as u8)
                &&& cpu_rest_same(c, post.cpu)
                &&& post.cpu.pc == c.pc + 2
                &&& post.memory == pre.memory
            } else {
                post == pre
            }
        },
        ISA::LOADD(x) => {
            &&& post.cpu.r@ == c.r@
            &&& post.cpu.dt == c.r@[x as int]
            &&& post.cpu.i == c.i && post.cpu.st == c.st && post.cpu.sp == c.sp
            &&& post.cpu.pc == c.pc + 2
            &&& frame_all(pre, post)
        },
        ISA::LOADS(x) => {
            &&& post.cpu.r@ == c.r@
            &&& post.cpu.st == c.r@[x as int]
            &&& post.cpu.i == c.i && post.cpu.dt == c.dt && post.cpu.sp == c.sp
            &&& post.cpu.pc == c.pc + 2
            &&& frame_all(pre, post)
        },
        ISA::ADDI(x) => {
            &&& post.cpu.r@ == c.r@
            &&& post.cpu.i == (c.i % 65536 + c.r@[x as int]) % 65536
            &&& post.cpu.dt == c.dt && post.cpu.st == c.st && post.cpu.sp == c.sp
            &&& post.cpu.pc == c.pc + 2
            &&& frame_all(pre, post)
        },
        ISA::LDSPR(x) => {
            &&& post.cpu.r@ == c.r@
            &&& post.cpu.i == (c.r@[x as int] % 16) * 5
            &&& post.cpu.dt == c.dt && post.cpu.st == c.st && post.cpu.sp == c.sp
            &&& post.cpu.pc == c.pc + 2
            &&& frame_all(pre, post)
        },
        ISA::BCD(x) => {
            let v = c.r@[x as int];
            &&& post.cpu.r@ == c.r@
            &&& cpu_rest_same(c, post.cpu)
            &&& post.cpu.pc == c.pc + 2
            &&& post.memory.ram@ == m.ram@.update(ram_addr(c.i as int, 0), ((v / 100) % 10) as u8)
                .update(ram_addr(c.i as int, 1), ((v / 10) % 10) as u8).update(
                ram_addr(c.i as int, 2),
                (v % 10) as u8,
            )
            &&& frame_but_ram(pre, post)
        },
        ISA::STOR(n) => {
            &&& post.cpu.r@ == c.r@
            &&& cpu_rest_same(c, post.cpu)
            &&& post.cpu.pc == c.pc + 2
            &&& post.memory.ram@ == stored_ram(m.ram@, c.r@, c.i as int, n + 1)
            &&& frame_but_ram(pre, post)
        },
        ISA::READ(n) => {
            &&& post.cpu.r@ == read_regs(c.r@, m.ram@, c.i as int, n + 1)
            &&& cpu_rest_same(c, post.cpu)
            &&& post.cpu.pc == c.pc + 2
            &&& frame_all(pre, post)
        },
        ISA::NOP(_) => post == pre,
    }
}

/// Offsets below the divisor that leave the same remainder when added to a
/// common base are equal.
proof fn lemma_mod_add_inj(base: int, u: int, v: int, m: int)
    requires
        0 <= base,
        0 <= u < m,
        0 <= v < m,
        (base + u) % m == (base + v) % m,
    ensures
        u == v,
{
    vstd::arithmetic::div_mod::lemma_mod_equivalence(base + u, base + v, m);
    if u >= v {
        vstd::arithmetic::div_mod::lemma_small_mod((u - v) as nat, m as nat);
    } else {
        vstd::arithmetic::div_mod::lemma_mod_equivalence(base + v, base + u, m);
        vstd::arithmetic::div_mod::lemma_small_mod((v - u) as nat, m as nat);
    }
}

/// Distinct sprite bits land on distinct framebuffer bytes: the bit column
/// determines the x coordinate modulo 64, the row the y coordinate modulo
/// 32, and a framebuffer index decomposes uniquely into the two.
proof fn lemma_pix_at_inj(px: int, py: int, b1: int, r1: int, b2: int, r2: int)
    requires
        0 <= px,
        0 <= py,
        0 <= b1 < 8,
        0 <= r1 < 32,
        0 <= b2 < 8,
        0 <= r2 < 32,
        pix_at(px, py, b1, r1) == pix_at(px, py, b2, r2),
    ensures
        b1 == b2,
        r1 == r2,
{
    let a1 = (py + r1) % 32;
    let c1 = (px + b1) % 64;
    let a2 = (py + r2) % 32;
    let c2 = (px + b2) % 64;
    assert(0 <= a1 < 32 && 0 <= a2 < 32 && 0 <= c1 < 64 && 0 <= c2 < 64);
    assert(64 * a1 + c1 == 64 * a2 + c2);
    assert(a1 == a2 && c1 == c2);
    lemma_mod_add_inj(py, r1, r2, 32);
    lemma_mod_add_inj(px, b1, b2, 64);
}

/// Relies on rand::thread_rng and rand::Rng::gen_range: a sample from the
/// half-open range 0..255 lies below 255. Nothing more is assumed of any
/// single outcome.
#[verifier::external_body]
fn random_below_255() -> (r: u8)
    ensures
        r < 255,
{
    rand::thread_rng().gen_range(0..255)
}

/// The weight of sprite bit `bi` within a row byte.
fn bit_mask(bi: usize) -> (w: u8)
    requires
        bi < 8,
    ensures
        w == bit_weight(bi as int),
{
    if bi == 0 {
        128
    } else if bi == 1 {
        64
    } else if bi == 2 {
        32
    } else if bi == 3 {
        16
    } else if bi == 4 {
        8
    } else if bi == 5 {
        4
    } else if bi == 6 {
        2
    } else {
        1
    }
}

impl Machine {
    /// XOR-blit an 8-wide, `n`-tall sprite read from RAM at the address
    /// register onto the framebuffer at base (Vx mod 64, Vy mod 32), each
    /// pixel wrapping toroidally on its own; VF reports whether any drawn
    /// pixel turned a lit byte off.
    #[verifier::rlimit(80)]
    fn exec_draw(&mut self, x: usize, y: usize, n: usize)
        requires
            x < 16,
            y < 16,
            n < 16,
            old(self).cpu.pc <= 4094,
        ensures
            exec_post(*old(self), *final(self), ISA::DRAW(x, y, n)),
    {
        self.cpu.r[15] = 0;
        let px = self.cpu.r[x] as usize;
        let py = self.cpu.r[y] as usize;
        let ib = self.cpu.i % 4096;
        let ghost r0 = self.cpu.r@;
        let ghost fb0 = old(self).memory.fb@;
        let ghost ram0 = old(self).memory.ram@;
        let ghost ir = old(self).cpu.i as int;
        let mut vf: bool = false;
        let mut rj: usize = 0;
        while rj < n
            invariant
                x < 16,
                y < 16,
                n < 16,
                rj <= n,
                ir == old(self).cpu.i,
                ib == ir % 4096,
                r0 == old(self).cpu.r@.update(15, 0u8),
                px == r0[x as int],
                py == r0[y as int],
                fb0 == old(self).memory.fb@,
                ram0 == old(self).memory.ram@,
                self.cpu.r@ == r0,
                self.cpu.i == old(self).cpu.i,
                self.cpu.dt == old(self).cpu.dt,
                self.cpu.st == old(self).cpu.st,
                self.cpu.sp == old(self).cpu.sp,
                self.cpu.pc == old(self).cpu.pc,
                self.memory.rom == old(self).memory.rom,
                self.memory.ram == old(self).memory.ram,
                self.memory.stack == old(self).memory.stack,
                self.keys == old(self).keys,
                self.memory.fb@.len() == 2048,
                forall|bi: int, rr: int|
                    pair_before(bi, rr, rj as int, 0) && #[trigger] sprite_on(ram0, ir, bi, rr)
                        ==> self.memory.fb@[pix_at(px as int, py as int, bi, rr)] == !fb0[pix_at(
                        px as int,
                        py as int,
                        bi,
                        rr,
                    )],
                forall|p: int|
                    0 <= p < 2048 && !draw_covers(ram0, ir, px as int, py as int, rj as int, 0, p)
                        ==> self.memory.fb@[p] == fb0[p],
                vf == draw_collides(fb0, ram0, ir, px as int, py as int, rj as int, 0),
            decreases n - rj,
        {
            let row = self.memory.ram[(ib + rj) % 4096];
            assert(row == ram0[ram_addr(ir, rj as int)]);
            let mut bi: usize = 0;
            while bi < 8
                invariant
                    x < 16,
                    y < 16,
                    n < 16,
                    rj < n,
                    bi <= 8,
                    ir == old(self).cpu.i,
                    ib == ir % 4096,
                    r0 == old(self).cpu.r@.update(15, 0u8),
                    px == r0[x as int],
                    py == r0[y as int],
                    fb0 == old(self).memory.fb@,
                    ram0 == old(self).memory.ram@,
                    row == ram0[ram_addr(ir, rj as int)],
                    self.cpu.r@ == r0,
                    self.cpu.i == old(self).cpu.i,
                    self.cpu.dt == old(self).cpu.dt,
                    self.cpu.st == old(self).cpu.st,
                    self.cpu.sp == old(self).cpu.sp,
                    self.cpu.pc == old(self).cpu.pc,
                    self.memory.rom == old(self).memory.rom,
                    self.memory.ram == old(self).memory.ram,
                    self.memory.stack == old(self).memory.stack,
                    self.keys == old(self).keys,
                    self.memory.fb@.len() == 2048,
                    forall|b2: int, rr: int|
                        pair_before(b2, rr, rj as int, bi as int) && #[trigger] sprite_on(
                            ram0,
                            ir,
                            b2,
                            rr,
                        ) ==> self.memory.fb@[pix_at(px as int, py as int, b2, rr)] == !fb0[pix_at(
                            px as int,
                            py as int,
                            b2,
                            rr,
                        )],
                    forall|p: int|
                        0 <= p < 2048 && !draw_covers(
                            ram0,
                            ir,
                            px as int,
                            py as int,
                            rj as int,
                            bi as int,
                            p,
                        ) ==> self.memory.fb@[p] == fb0[p],
                    vf == draw_collides(fb0, ram0, ir, px as int, py as int, rj as int, bi as int),
                decreases 8 - bi,
            {
                let w = bit_mask(bi);
                if (row / w) % 2 == 1 {
                    assert(sprite_on(ram0, ir, bi as int, rj as int));
                    let p = 64 * ((py + rj) % 32) + (px + bi) % 64;
                    proof {
                        assert(p == pix_at(px as int, py as int, bi as int, rj as int));
                        assert(p < 2048);
                        assert(!draw_covers(
                            ram0,
                            ir,
                            px as int,
                            py as int,
                            rj as int,
                            bi as int,
                            p as int,
                        )) by {
                            if draw_covers(
                                ram0,
                                ir,
                                px as int,
                                py as int,
                                rj as int,
                                bi as int,
                                p as int,
                            ) {
                                let (b2, r2) = choose|b2: int, r2: int|
                                    pair_before(b2, r2, rj as int, bi as int)
                                        && #[trigger] sprite_on(ram0, ir, b2, r2) && pix_at(
                                        px as int,
                                        py as int,
                                        b2,
                                        r2,
                                    ) == p;
                                lemma_pix_at_inj(
                                    px as int,
                                    py as int,
                                    b2,
                                    r2,
                                    bi as int,
                                    rj as int,
                                );
                            }
                        };
                    }
                    let lit = self.memory.fb[p];
                    if lit != 0 {
                        vf = true;
                    }
                    self.memory.fb[p] = !lit;
                    proof {
                        let pxi = px as int;
                        let pyi = py as int;
                        let bii = bi as int;
                        let rji = rj as int;
                        assert forall|b2: int, rr: int|
                            pair_before(b2, rr, rji, bii + 1) && #[trigger] sprite_on(
                                ram0,
                                ir,
                                b2,
                                rr,
                            ) implies self.memory.fb@[pix_at(pxi, pyi, b2, rr)] == !fb0[pix_at(
                            pxi,
                            pyi,
                            b2,
                            rr,
                        )] by {
                            if b2 == bii && rr == rji {
                            } else {
                                assert(pair_before(b2, rr, rji, bii));
                                if pix_at(pxi, pyi, b2, rr) == pix_at(pxi, pyi, bii, rji) {
                                    lemma_pix_at_inj(pxi, pyi, b2, rr, bii, rji);
                                }
                            }
                        };
                        assert forall|q: int|
                            0 <= q < 2048 && !draw_covers(ram0, ir, pxi, pyi, rji, bii + 1, q)
                                implies self.memory.fb@[q] == fb0[q] by {
                            assert(!draw_covers(ram0, ir, pxi, pyi, rji, bii, q)) by {
                                if draw_covers(ram0, ir, pxi, pyi, rji, bii, q) {
                                    let (b2, r2) = choose|b2: int, r2: int|
                                        pair_before(b2, r2, rji, bii) && #[trigger] sprite_on(
                                            ram0,
                                            ir,
                                            b2,
                                            r2,
                                        ) && pix_at(pxi, pyi, b2, r2) == q;
                                    assert(pair_before(b2, r2, rji, bii + 1));
                                }
                            };
                            assert(q != p) by {
                                assert(pair_before(bii, rji, rji, bii + 1));
                            };
                        };
                        if lit != 0 {
                            assert(draw_collides(fb0, ram0, ir, pxi, pyi, rji, bii + 1)) by {
                                assert(pair_before(bii, rji, rji, bii + 1) && sprite_on(
                                    ram0,
                                    ir,
                                    bii,
                                    rji,
                                ) && fb0[pix_at(pxi, pyi, bii, rji)] != 0);
                            };
                        } else {
                            assert(draw_collides(fb0, ram0, ir, pxi, pyi, rji, bii + 1)
                                == draw_collides(fb0, ram0, ir, pxi, pyi, rji, bii)) by {
                                if draw_collides(fb0, ram0, ir, pxi, pyi, rji, bii + 1) {
                                    let (b2, r2) = choose|b2: int, r2: int|
                                        pair_before(b2, r2, rji, bii + 1) && #[trigger] sprite_on(
                                            ram0,
                                            ir,
                                            b2,
                                            r2,
                                        ) && fb0[pix_at(pxi, pyi, b2, r2)] != 0;
                                    if b2 == bii && r2 == rji {
                                    } else {
                                        assert(pair_before(b2, r2, rji, bii));
                                    }
                                }
                                if draw_collides(fb0, ram0, ir, pxi, pyi, rji, bii) {
                                    let (b2, r2) = choose|b2: int, r2: int|
                                        pair_before(b2, r2, rji, bii) && #[trigger] sprite_on(
                                            ram0,
                                            ir,
                                            b2,
                                            r2,
                                        ) && fb0[pix_at(pxi, pyi, b2, r2)] != 0;
                                    assert(pair_before(b2, r2, rji, bii + 1));
                                }
                            };
                        }
                    }
                } else {
                    proof {
                        let pxi = px as int;
                        let pyi = py as int;
                        let bii = bi as int;
                        let rji = rj as int;
                        assert(!sprite_on(ram0, ir, bii, rji));
                        assert forall|q: int|
                            0 <= q < 2048 && !draw_covers(ram0, ir, pxi, pyi, rji, bii + 1, q)
                                implies self.memory.fb@[q] == fb0[q] by {
                            assert(!draw_covers(ram0, ir, pxi, pyi, rji, bii, q)) by {
                                if draw_covers(ram0, ir, pxi, pyi, rji, bii, q) {
                                    let (b2, r2) = choose|b2: int, r2: int|
                                        pair_before(b2, r2, rji, bii) && #[trigger] sprite_on(
                                            ram0,
                                            ir,
                                            b2,
                                            r2,
                                        ) && pix_at(pxi, pyi, b2, r2) == q;
                                    assert(pair_before(b2, r2, rji, bii + 1));
                                }
                            };
                        };
                        assert(draw_collides(fb0, ram0, ir, pxi, pyi, rji, bii + 1)
                            == draw_collides(fb0, ram0, ir, pxi, pyi, rji, bii)) by {
                            if draw_collides(fb0, ram0, ir, pxi, pyi, rji, bii + 1) {
                                let (b2, r2) = choose|b2: int, r2: int|
                                    pair_before(b2, r2, rji, bii + 1) && #[trigger] sprite_on(
                                        ram0,
                                        ir,
                                        b2,
                                        r2,
                                    ) && fb0[pix_at(pxi, pyi, b2, r2)] != 0;
                                assert(pair_before(b2, r2, rji, bii));
                            }
                            if draw_collides(fb0, ram0, ir, pxi, pyi, rji, bii) {
                                let (b2, r2) = choose|b2: int, r2: int|
                                    pair_before(b2, r2, rji, bii) && #[trigger] sprite_on(
                                        ram0,
                                        ir,
                                        b2,
                                        r2,
                                    ) && fb0[pix_at(pxi, pyi, b2, r2)] != 0;
                                assert(pair_before(b2, r2, rji, bii + 1));
                            }
                        };
                    }
                }
                bi += 1;
            }
            proof {
                let pxi = px as int;
                let pyi = py as int;
                let rji = rj as int;
                assert forall|b2: int, rr: int| #![all_triggers]
                    pair_before(b2, rr, rji + 1, 0) implies pair_before(b2, rr, rji, 8) by {};
                assert forall|b2: int, rr: int| #![all_triggers]
                    pair_before(b2, rr, rji, 8) implies pair_before(b2, rr, rji + 1, 0) by {};
                assert forall|q: int|
                    0 <= q < 2048 && !draw_covers(ram0, ir, pxi, pyi, rji + 1, 0, q)
                        implies self.memory.fb@[q] == fb0[q] by {
                    assert(!draw_covers(ram0, ir, pxi, pyi, rji, 8, q)) by {
                        if draw_covers(ram0, ir, pxi, pyi, rji, 8, q) {
                            let (b2, r2) = choose|b2: int, r2: int|
                                pair_before(b2, r2, rji, 8) && #[trigger] sprite_on(
                                    ram0,
                                    ir,
                                    b2,
                                    r2,
                                ) && pix_at(pxi, pyi, b2, r2) == q;
                            assert(pair_before(b2, r2, rji + 1, 0));
                        }
                    };
                };
                assert(draw_collides(fb0, ram0, ir, pxi, pyi, rji + 1, 0) == draw_collides(
                    fb0,
                    ram0,
                    ir,
                    pxi,
                    pyi,
                    rji,
                    8,
                )) by {
                    if draw_collides(fb0, ram0, ir, pxi, pyi, rji + 1, 0) {
                        let (b2, r2) = choose|b2: int, r2: int|
                            pair_before(b2, r2, rji + 1, 0) && #[trigger] sprite_on(
                                ram0,
                                ir,
                                b2,
                                r2,
                            ) && fb0[pix_at(pxi, pyi, b2, r2)] != 0;
                        assert(pair_before(b2, r2, rji, 8));
                    }
                    if draw_collides(fb0, ram0, ir, pxi, pyi, rji, 8) {
                        let (b2, r2) = choose|b2: int, r2: int|
                            pair_before(b2, r2, rji, 8) && #[trigger] sprite_on(ram0, ir, b2, r2)
                                && fb0[pix_at(pxi, pyi, b2, r2)] != 0;
                        assert(pair_before(b2, r2, rji + 1, 0));
                    }
                };
            }
            rj += 1;
        }
        if vf {
            self.cpu.r[15] = 1;
        }
        self.cpu.pc = self.cpu.pc + 2;
    }

    /// Scan for the lowest-numbered pressed key; if one is found, clear its
    /// pressed state, store its index in Vx and advance, else leave the
    /// whole state untouched so the caller can retry.
    fn exec_keyd(&mut self, x: usize)
        requires
            x < 16,
            old(self).cpu.pc <= 4094,
        ensures
            exec_post(*old(self), *final(self), ISA::KEYD(x)),
    {
        let mut key: usize = 16;
        let mut k: usize = 0;
        while k < 16
            invariant
                k <= 16,
                key <= 16,
                *self == *old(self),
                key == 16 ==> (forall|j: int| 0 <= j < k ==> !self.keys@[j]),
                key < 16 ==> lowest_pressed(self.keys@, key as int),
            decreases 16 - k,
        {
            if key == 16 && self.keys[k] {
                key = k;
            }
            k += 1;
        }
        if key < 16 {
            assert(any_pressed(self.keys@));
            self.keys[key] = false;
            self.cpu.r[x] = key as u8;
            self.cpu.pc = self.cpu.pc + 2;
            assert(exists|kk: int|
                #[trigger] lowest_pressed(old(self).keys@, kk) && self.keys@ == old(
                    self,
                ).keys@.update(kk, false) && self.cpu.r@ == old(self).cpu.r@.update(
                x as int,
                kk as u8,
            )) by {
                assert(lowest_pressed(old(self).keys@, key as int) && self.keys@ == old(
                    self,
                ).keys@.update(key as int, false) && self.cpu.r@ == old(self).cpu.r@.update(
                    x as int,
                    key as u8,
                ));
            };
        } else {
            assert(!any_pressed(self.keys@)) by {
                if any_pressed(self.keys@) {
                    let j = choose|j: int| 0 <= j < 16 && self.keys@[j];
                }
            };
        }
    }

    /// Copy registers V0..=Vn into RAM at consecutive wrapped addresses
    /// starting at the address register.
    fn exec_stor(&mut self, n: usize)
        requires
            n < 16,
            old(self).cpu.pc <= 4094,
        ensures
            exec_post(*old(self), *final(self), ISA::STOR(n)),
    {
        let ib = self.cpu.i % 4096;
        let ghost ir = old(self).cpu.i as int;
        let mut k: usize = 0;
        while k < n + 1
            invariant
                n < 16,
                k <= n + 1,
                ir == old(self).cpu.i,
                ib == ir % 4096,
                self.cpu == old(self).cpu,
                self.memory.rom == old(self).memory.rom,
                self.memory.stack == old(self).memory.stack,
                self.memory.fb == old(self).memory.fb,
                self.keys == old(self).keys,
                self.memory.ram@ == stored_ram(
                    old(self).memory.ram@,
                    old(self).cpu.r@,
                    ir,
                    k as int,
                ),
            decreases n + 1 - k,
        {
            self.memory.ram[(ib + k) % 4096] = self.cpu.r[k];
            k += 1;
        }
        self.cpu.pc = self.cpu.pc + 2;
    }

    /// Load registers V0..=Vn from RAM at consecutive wrapped addresses
    /// starting at the address register.
    fn exec_read(&mut self, n: usize)
        requires
            n < 16,
            old(self).cpu.pc <= 4094,
        ensures
            exec_post(*old(self), *final(self), ISA::READ(n)),
    {
        let ib = self.cpu.i % 4096;
        let ghost ir = old(self).cpu.i as int;
        let mut k: usize = 0;
        while k < n + 1
            invariant
                n < 16,
                k <= n + 1,
                ir == old(self).cpu.i,
                ib == ir % 4096,
                self.cpu.i == old(self).cpu.i,
                self.cpu.dt == old(self).cpu.dt,
                self.cpu.st == old(self).cpu.st,
                self.cpu.pc == old(self).cpu.pc,
                self.cpu.sp == old(self).cpu.sp,
                self.memory == old(self).memory,
                self.keys == old(self).keys,
                self.cpu.r@ == read_regs(old(self).cpu.r@, old(self).memory.ram@, ir, k as int),
            decreases n + 1 - k,
        {
            self.cpu.r[k] = self.memory.ram[(ib + k) % 4096];
            k += 1;
        }
        self.cpu.pc = self.cpu.pc + 2;
    }

    /// Fetch the two bytes at PC, decode them, and interpret the decoded
    /// instruction, mutating the state in place; return the pre-execution PC
    /// and the instruction for tracing. A PC with fewer than two bytes left
    /// in RAM reports a fetch failure; an unrecognized opcode reports an
    /// invalid-opcode error carrying the raw value and the faulting address.
    /// Neither failure changes any state.
    #[verifier::rlimit(100)]
    pub fn step(&mut self) -> (r: Result<(usize, ISA), StepError>)
        requires
            old(self).wf(),
        ensures
            final(self).wf(),
            old(self).cpu.pc + 2 > 4096 ==> r == Err::<(usize, ISA), StepError>(StepError::Fetch)
                && *final(self) == *old(self),
            old(self).cpu.pc + 2 <= 4096 ==> {
                let op = opcode_at(old(self).memory.ram@, old(self).cpu.pc as int);
                let inst = spec_decode(op);
                &&& (inst is NOP ==> r == Err::<(usize, ISA), StepError>(
                    StepError::InvalidOpcode { opcode: op, addr: old(self).cpu.pc },
                ) && *final(self) == *old(self))
                &&& (!(inst is NOP) ==> r == Ok::<(usize, ISA), StepError>(
                    (old(self).cpu.pc, inst),
                ) && exec_post(*old(self), *final(self), inst))
            },
    {
        let pc = self.cpu.pc;
        if pc > 4094 {
            return Err(StepError::Fetch);
        }
        let hi = self.memory.ram[pc];
        let lo = self.memory.ram[pc + 1];
        let window: [u8; 2] = [hi, lo];
        let inst = match decode(window.as_slice()) {
            Some(inst) => inst,
            None => {
                return Err(StepError::Fetch);
            },
        };
        proof {
            lemma_spec_decode_wf(opcode_of(hi, lo));
        }
        match inst {
            ISA::CLS => {
                self.memory.fb = [0; 2048];
                self.cpu.pc = pc + 2;
            },
            ISA::RET => {
                self.cpu.pc = self.memory.stack[self.cpu.sp] as usize;
                self.cpu.sp = if self.cpu.sp == 23 {
                    0
                } else {
                    self.cpu.sp + 1
                };
            },
            ISA::SYS(a) => {
                self.cpu.pc = a;
            },
            ISA::JP(a) => {
                self.cpu.pc = a;
            },
            ISA::CALL(a) => {
                self.cpu.sp = if self.cpu.sp == 0 {
                    23
                } else {
                    self.cpu.sp - 1
                };
                self.memory.stack[self.cpu.sp] = (pc + 2) as u16;
                self.cpu.pc = a;
            },
            ISA::SKE(x, kk) => {
                self.cpu.pc = if self.cpu.r[x] == kk {
                    pc + 4
                } else {
                    pc + 2
                };
            },
            ISA::SKNE(x, kk) => {
                self.cpu.pc = if self.cpu.r[x] != kk {
                    pc + 4
                } else {
                    pc + 2
                };
            },
            ISA::SKRE(x, y) => {
                self.cpu.pc = if self.cpu.r[x] == self.cpu.r[y] {
                    pc + 4
                } else {
                    pc + 2
                };
            },
            ISA::LOAD(x, kk) => {
                self.cpu.r[x] = kk;
                self.cpu.pc = pc + 2;
            },
            ISA::ADD(x, kk) => {
                let s = self.cpu.r[x] as u16 + kk as u16;
                self.cpu.r[x] = (s % 256) as u8;
                self.cpu.pc = pc + 2;
            },
            ISA::MOVE(x, y) => {
                self.cpu.r[x] = self.cpu.r[y];
                self.cpu.pc = pc + 2;
            },
            ISA::OR(x, y) => {
                let v = self.cpu.r[x] | self.cpu.r[y];
                self.cpu.r[x] = v;
                self.cpu.pc = pc + 2;
            },
            ISA::AND(x, y) => {
                let v = self.cpu.r[x] & self.cpu.r[y];
                self.cpu.r[x] = v;
                self.cpu.pc = pc + 2;
            },
            ISA::XOR(x, y) => {
                let v = self.cpu.r[x] ^ self.cpu.r[y];
                self.cpu.r[x] = v;
                self.cpu.pc = pc + 2;
            },
            ISA::ADDR(x, y) => {
                let s = self.cpu.r[x] as u16 + self.cpu.r[y] as u16;
                self.cpu.r[x] = (s % 256) as u8;
                self.cpu.r[15] = if s >= 256 {
                    1
                } else {
                    0
                };
                self.cpu.pc = pc + 2;
            },
            ISA::SUB(x, y) => {
                let a = self.cpu.r[x];
                let b = self.cpu.r[y];
                if a >= b {
                    self.cpu.r[x] = a - b;
                    self.cpu.r[15] = 1;
                } else {
                    self.cpu.r[x] = (a as u16 + 256 - b as u16) as u8;
                    self.cpu.r[15] = 0;
                }
                self.cpu.pc = pc + 2;
            },
            ISA::SHR(x, _y) => {
                let a = self.cpu.r[x];
                self.cpu.r[15] = a % 2;
                let b = self.cpu.r[x];
                self.cpu.r[x] = b / 2;
                self.cpu.pc = pc + 2;
            },
            ISA::SUBN(x, y) => {
                let a = self.cpu.r[x];
                let b = self.cpu.r[y];
                if b >= a {
                    self.cpu.r[x] = b - a;
                    self.cpu.r[15] = 1;
                } else {
                    self.cpu.r[x] = (b as u16 + 256 - a as u16) as u8;
                    self.cpu.r[15] = 0;
                }
                self.cpu.pc = pc + 2;
            },
            ISA::SHL(x, _y) => {
                let a = self.cpu.r[x];
                self.cpu.r[15] = a / 128;
                let b = self.cpu.r[x];
                let s = b as u16 + b as u16;
                self.cpu.r[x] = (s % 256) as u8;
                self.cpu.pc = pc + 2;
            },
            ISA::SKRNE(x, y) => {
                self.cpu.pc = if self.cpu.r[x] != self.cpu.r[y] {
                    pc + 4
                } else {
                    pc + 2
                };
            },
            ISA::LOADI(a) => {
                self.cpu.i = a;
                self.cpu.pc = pc + 2;
            },
            ISA::JUMPI(a) => {
                self.cpu.pc = self.cpu.r[0] as usize + a;
            },
            ISA::RAND(x, kk) => {
                let v = random_below_255();
                self.cpu.r[x] = v & kk;
                self.cpu.pc = pc + 2;
                assert(exists|w: u8|
                    w < 255 && self.cpu.r@ == old(self).cpu.r@.update(x as int, w & kk)) by {
                    assert(v < 255 && self.cpu.r@ == old(self).cpu.r@.update(x as int, v & kk));
                };
            },
            ISA::DRAW(x, y, n) => {
                self.exec_draw(x, y, n);
            },
            ISA::SKPR(x) => {
                let ki = (self.cpu.r[x] % 16) as usize;
                self.cpu.pc = if self.keys[ki] {
                    pc + 4
                } else {
                    pc + 2
                };
            },
            ISA::SKUP(x) => {
                let ki = (self.cpu.r[x] % 16) as usize;
                self.cpu.pc = if !self.keys[ki] {
                    pc + 4
                } else {
                    pc + 2
                };
            },
            ISA::MOVED(x) => {
                self.cpu.r[x] = self.cpu.dt;
                self.cpu.pc = pc + 2;
            },
            ISA::KEYD(x) => {
                self.exec_keyd(x);
            },
            ISA::LOADD(x) => {
                self.cpu.dt = self.cpu.r[x];
                self.cpu.pc = pc + 2;
            },
            ISA::LOADS(x) => {
                self.cpu.st = self.cpu.r[x];
                self.cpu.pc = pc + 2;
            },
            ISA::ADDI(x) => {
                self.cpu.i = (self.cpu.i % 65536 + self.cpu.r[x] as usize) % 65536;
                self.cpu.pc = pc + 2;
            },
            ISA::LDSPR(x) => {
                self.cpu.i = ((self.cpu.r[x] % 16) * 5) as usize;
                self.cpu.pc = pc + 2;
            },
            ISA::BCD(x) => {
                let v = self.cpu.r[x];
                let ib = self.cpu.i % 4096;
                self.memory.ram[ib] = (v / 100) % 10;
                self.memory.ram[(ib + 1) % 4096] = (v / 10) % 10;
                self.memory.ram[(ib + 2) % 4096] = v % 10;
                self.cpu.pc = pc + 2;
            },
            ISA::STOR(n) => {
                self.exec_stor(n);
            },
            ISA::READ(n) => {
                self.exec_read(n);
            },
            ISA::NOP(raw) => {
                return Err(StepError::InvalidOpcode { opcode: raw, addr: pc });
            },
        }
        Ok((pc, inst))
    }
}

} // verus!
