//! Laws of the execution engine, stated over the instruction transition
//! relation `exec_post` and proved once for all machine states.

use vstd::prelude::*;

use crate::isa::ISA;
use crate::machine::Machine;
use crate::machine::exec_post;
use crate::machine::lowest_pressed;
use crate::machine::any_pressed;
use crate::machine::ticked;

verus! {

/// ADDR: for every byte pair (a, b) held in Vx and Vy, the result in Vx is
/// (a + b) mod 256 and VF is 1 exactly when the unwrapped sum reaches 256.
/// (When x is 15 the flag write wins, so the flags register is excluded.)
pub proof fn lemma_addr_carry(pre: Machine, post: Machine, x: usize, y: usize)
    requires
        exec_post(pre, post, ISA::ADDR(x, y)),
        x < 16,
        y < 16,
        x != 15,
    ensures
        post.cpu.r@[x as int] == (pre.cpu.r@[x as int] + pre.cpu.r@[y as int]) % 256,
        post.cpu.r@[15] == if pre.cpu.r@[x as int] + pre.cpu.r@[y as int] >= 256 {
            1u8
        } else {
            0u8
        },
{
}

/// SUB: for every byte pair (a, b) held in Vx and Vy, VF is 1 exactly when
/// a >= b (no borrow), and the result in Vx is (a - b) mod 256.
pub proof fn lemma_sub_borrow(pre: Machine, post: Machine, x: usize, y: usize)
    requires
        exec_post(pre, post, ISA::SUB(x, y)),
        x < 16,
        y < 16,
        x != 15,
    ensures
        post.cpu.r@[x as int] == (pre.cpu.r@[x as int] - pre.cpu.r@[y as int] + 256) % 256,
        post.cpu.r@[15] == if pre.cpu.r@[x as int] >= pre.cpu.r@[y as int] {
            1u8
        } else {
            0u8
        },
{
    let a = pre.cpu.r@[x as int];
    let b = pre.cpu.r@[y as int];
    if a >= b {
        assert((a - b + 256) % 256 == a - b) by {
            vstd::arithmetic::div_mod::lemma_mod_sub_multiples_vanish(a - b, 256);
            vstd::arithmetic::div_mod::lemma_small_mod((a - b) as nat, 256);
        };
    } else {
        vstd::arithmetic::div_mod::lemma_small_mod((a - b + 256) as nat, 256);
    }
}

/// SHR and SHL read and write only the x operand: the y operand makes no
/// difference at all to what the instruction does.
pub proof fn lemma_shift_ignores_y(pre: Machine, post: Machine, x: usize, y1: usize, y2: usize)
    ensures
        exec_post(pre, post, ISA::SHR(x, y1)) == exec_post(pre, post, ISA::SHR(x, y2)),
        exec_post(pre, post, ISA::SHL(x, y1)) == exec_post(pre, post, ISA::SHL(x, y2)),
{
}

/// SHR: VF receives the low bit shifted out and Vx is halved.
pub proof fn lemma_shr_flag(pre: Machine, post: Machine, x: usize, y: usize)
    requires
        exec_post(pre, post, ISA::SHR(x, y)),
        x < 16,
        x != 15,
    ensures
        post.cpu.r@[15] == pre.cpu.r@[x as int] % 2,
        post.cpu.r@[x as int] == pre.cpu.r@[x as int] / 2,
{
}

/// SHL: VF receives the high bit shifted out and Vx is doubled mod 256.
pub proof fn lemma_shl_flag(pre: Machine, post: Machine, x: usize, y: usize)
    requires
        exec_post(pre, post, ISA::SHL(x, y)),
        x < 16,
        x != 15,
    ensures
        post.cpu.r@[15] == pre.cpu.r@[x as int] / 128,
        post.cpu.r@[x as int] == (2 * pre.cpu.r@[x as int]) % 256,
{
}

/// CLS zeroes all 2048 framebuffer bytes, whatever they held before.
pub proof fn lemma_cls_clears(pre: Machine, post: Machine)
    requires
        exec_post(pre, post, ISA::CLS),
    ensures
        post.memory.fb@.len() == 2048,
        forall|p: int| 0 <= p < 2048 ==> post.memory.fb@[p] == 0,
{
}

/// Stack discipline: a CALL followed by a RET lands at the instruction
/// after the call, with the stack pointer back at its pre-call value.
pub proof fn lemma_call_ret(m0: Machine, m1: Machine, m2: Machine, a: usize)
    requires
        m0.wf(),
        m0.cpu.pc + 2 < 65536,
        exec_post(m0, m1, ISA::CALL(a)),
        exec_post(m1, m2, ISA::RET),
    ensures
        m2.cpu.pc == m0.cpu.pc + 2,
        m2.cpu.sp == m0.cpu.sp,
{
}

/// KEYD with no key pressed leaves the whole machine untouched: the caller
/// retries at the same PC once key state changes.
pub proof fn lemma_keyd_no_key(pre: Machine, post: Machine, x: usize)
    requires
        exec_post(pre, post, ISA::KEYD(x)),
        pre.keys@.len() == 16,
        forall|k: int| 0 <= k < 16 ==> !pre.keys@[k],
    ensures
        post == pre,
{
    assert(!any_pressed(pre.keys@)) by {
        if any_pressed(pre.keys@) {
            let k = choose|k: int| 0 <= k < 16 && pre.keys@[k];
        }
    };
}

/// KEYD with the lowest-numbered pressed key k: one step clears key k's
/// pressed state, stores k in Vx, and advances PC by 2.
pub proof fn lemma_keyd_pressed(pre: Machine, post: Machine, x: usize, k: int)
    requires
        exec_post(pre, post, ISA::KEYD(x)),
        x < 16,
        lowest_pressed(pre.keys@, k),
    ensures
        post.cpu.r@ == pre.cpu.r@.update(x as int, k as u8),
        post.keys@ == pre.keys@.update(k, false),
        post.cpu.pc == pre.cpu.pc + 2,
        post.cpu.dt == pre.cpu.dt && post.cpu.st == pre.cpu.st,
        post.cpu.i == pre.cpu.i && post.cpu.sp == pre.cpu.sp,
        post.memory == pre.memory,
{
    assert(any_pressed(pre.keys@)) by {
        assert(0 <= k < 16 && pre.keys@[k]);
    };
    let k2 = choose|k2: int|
        #[trigger] lowest_pressed(pre.keys@, k2) && post.keys@ == pre.keys@.update(k2, false)
            && post.cpu.r@ == pre.cpu.r@.update(x as int, k2 as u8);
    assert(k2 == k) by {
        if k2 < k {
            assert(pre.keys@[k2]);
        } else if k < k2 {
            assert(pre.keys@[k]);
        }
    };
}

/// A timer tick never drives a value below zero, and ticking a zero timer
/// changes nothing: repeated ticks past zero are no-ops.
pub proof fn lemma_tick_past_zero(v: u8)
    ensures
        ticked(v) <= v,
        v == 0 ==> ticked(v) == v,
        ticked(ticked(0)) == 0,
{
}

} // verus!
