use vstd::prelude::*;

use crate::display::{draw_collides, draw_seq, drawn_pixel, covers, row_offset, sprite_bit_at,
    sprite_row_bit};
use crate::machine::{any_key_down, first_key_from, lemma_decode_bounds, op_addr, op_cat, op_kk,
    op_n, op_x, op_y, spec_execute, Chip8Error, MachineView};

verus! {

/// Executing 0x6xkk sets Vx to kk, advances the program counter by exactly
/// 2, and never fails, whatever x and kk.
pub proof fn lemma_load_immediate(m: MachineView, op: u16, rnd: u8)
    requires
        m.wf(),
        m.pc <= 4094,
        op_cat(op) == 6,
    ensures
        ({
            let r = spec_execute(m, op, rnd);
            &&& r is Ok
            &&& r->Ok_0.v[op_x(op)] == op_kk(op)
            &&& r->Ok_0.pc == m.pc + 2
        }),
{
    lemma_decode_bounds(op);
}

/// Executing 0x7xkk sets Vx to (Vx + kk) mod 256 -- wraparound, never a
/// fault -- and advances the program counter by exactly 2.
pub proof fn lemma_add_immediate(m: MachineView, op: u16, rnd: u8)
    requires
        m.wf(),
        m.pc <= 4094,
        op_cat(op) == 7,
    ensures
        ({
            let r = spec_execute(m, op, rnd);
            &&& r is Ok
            &&& r->Ok_0.v[op_x(op)] == (m.v[op_x(op)] + op_kk(op)) % 256
            &&& r->Ok_0.pc == m.pc + 2
        }),
{
    lemma_decode_bounds(op);
    let s = m.v[op_x(op)] + op_kk(op);
    assert(0 <= s < 512);
    if s < 256 {
        assert(s % 256 == s);
    } else {
        assert(s % 256 == s - 256);
    }
}

/// Executing 0x8xy4 (with a destination other than the flag register
/// itself) sets VF to 1 exactly when the unwrapped sum Vx + Vy exceeds
/// 255, and Vx to the wrapped sum.
pub proof fn lemma_add_carry_flag(m: MachineView, op: u16, rnd: u8)
    requires
        m.wf(),
        m.pc <= 4094,
        op_cat(op) == 8,
        op_n(op) == 4,
        op_x(op) != 0xF,
    ensures
        ({
            let r = spec_execute(m, op, rnd);
            let sum = m.v[op_x(op)] + m.v[op_y(op)];
            &&& r is Ok
            &&& r->Ok_0.v[0xF] == (if sum > 255 { 1u8 } else { 0u8 })
            &&& r->Ok_0.v[op_x(op)] == sum % 256
        }),
{
    lemma_decode_bounds(op);
    let sum = m.v[op_x(op)] + m.v[op_y(op)];
    if sum < 256 {
        assert(sum % 256 == sum);
    } else {
        assert(sum % 256 == sum - 256);
    }
}

/// Executing 0x8xy5 (with a destination other than the flag register
/// itself) sets VF to 1 exactly when Vx > Vy before the subtraction.
pub proof fn lemma_sub_borrow_flag(m: MachineView, op: u16, rnd: u8)
    requires
        m.wf(),
        m.pc <= 4094,
        op_cat(op) == 8,
        op_n(op) == 5,
        op_x(op) != 0xF,
    ensures
        ({
            let r = spec_execute(m, op, rnd);
            &&& r is Ok
            &&& r->Ok_0.v[0xF] == (if m.v[op_x(op)] > m.v[op_y(op)] { 1u8 } else { 0u8 })
        }),
{
    lemma_decode_bounds(op);
}

/// A call pushed at any depth below capacity succeeds and jumps to its
/// address, and the matching return restores the program counter to
/// exactly the instruction after the call, at the original stack depth.
pub proof fn lemma_call_return(m: MachineView, call_op: u16, rnd1: u8, rnd2: u8)
    requires
        m.wf(),
        m.pc <= 4094,
        op_cat(call_op) == 2,
        m.sp < 16,
    ensures
        ({
            let r1 = spec_execute(m, call_op, rnd1);
            &&& r1 is Ok
            &&& r1->Ok_0.pc == op_addr(call_op)
            &&& r1->Ok_0.sp == m.sp + 1
            &&& ({
                let r2 = spec_execute(r1->Ok_0, 0x00EE, rnd2);
                &&& r2 is Ok
                &&& r2->Ok_0.pc == m.pc + 2
                &&& r2->Ok_0.sp == m.sp
            })
        }),
{
    assert(0x00EEu16 >> 12 == 0) by (bit_vector);
}

/// A call at full stack depth -- the seventeenth nested call -- fails with
/// StackOverflow, and a return with an empty stack fails with
/// StackUnderflow; either way the machine is unchanged.
pub proof fn lemma_stack_limits(m: MachineView, call_op: u16, rnd: u8)
    requires
        m.wf(),
        op_cat(call_op) == 2,
    ensures
        m.sp == 16 ==> spec_execute(m, call_op, rnd) == Err::<MachineView, Chip8Error>(
            Chip8Error::StackOverflow),
        m.sp == 0 ==> spec_execute(m, 0x00EE, rnd) == Err::<MachineView, Chip8Error>(
            Chip8Error::StackUnderflow),
{
    assert(0x00EEu16 >> 12 == 0) by (bit_vector);
}

/// Drawing the identical sprite at the identical position twice in
/// succession restores the pre-draw framebuffer exactly: XOR is
/// self-inverse and the two draws touch the same pixels.
pub proof fn lemma_draw_twice(fb: Seq<bool>, rows: Seq<u8>, x0: int, y0: int)
    requires
        fb.len() == 2048,
    ensures
        draw_seq(draw_seq(fb, rows, x0, y0), rows, x0, y0) == fb,
{
    let f1 = draw_seq(fb, rows, x0, y0);
    let f2 = draw_seq(f1, rows, x0, y0);
    assert forall|q: int| 0 <= q < 2048 implies f2[q] == fb[q] by {
        let px = q % 64;
        let py = q / 64;
        assert(0 <= px < 64);
        assert(0 <= py < 32 && q == py * 64 + px) by (nonlinear_arith)
            requires
                0 <= q < 2048,
                px == q % 64,
                py == q / 64,
        ;
        assert(f1[q] == drawn_pixel(fb, rows, x0, y0, px, py));
        assert(f2[q] == drawn_pixel(f1, rows, x0, y0, px, py));
    }
    assert(f2 =~= fb);
}

/// Collision reporting is exact: the draw collides precisely when some
/// pixel it writes with a set sprite bit was already on. In particular a
/// draw over an all-clear region reports no collision, and a draw that
/// writes a set bit over a set pixel reports one.
pub proof fn lemma_draw_collision(fb: Seq<bool>, rows: Seq<u8>, x0: int, y0: int)
    ensures
        draw_collides(fb, rows, x0, y0) <==> exists|px: int, py: int|
            0 <= px < 64 && 0 <= py < 32 && #[trigger] covers(x0, y0, rows.len() as int, px, py)
                && fb[py * 64 + px] && sprite_bit_at(rows, x0, y0, px, py),
        (forall|px: int, py: int|
            0 <= px < 64 && 0 <= py < 32 && #[trigger] covers(x0, y0, rows.len() as int, px, py)
                ==> !fb[py * 64 + px]) ==> !draw_collides(fb, rows, x0, y0),
{
}

/// Wraparound at the right edge: a sprite drawn with x0 = 63 writes its
/// second pixel column (bit 6 of each row, column offset 1) at column 0,
/// not off-grid.
pub proof fn lemma_draw_wraparound(fb: Seq<bool>, rows: Seq<u8>, y0: int, py: int)
    requires
        fb.len() == 2048,
        0 <= y0 < 32,
        0 <= py < 32,
        row_offset(y0, py) < rows.len(),
    ensures
        draw_seq(fb, rows, 63, y0)[py * 64] == (fb[py * 64] != sprite_row_bit(
            rows[row_offset(y0, py)], 1)),
{
    let q = py * 64;
    assert(q % 64 == 0 && q / 64 == py) by (nonlinear_arith)
        requires
            0 <= py < 32,
            q == py * 64,
    ;
    assert(draw_seq(fb, rows, 63, y0)[q] == drawn_pixel(fb, rows, 63, y0, 0, py));
}

/// The key wait is a non-advancing step, never a blocked call: executing
/// 0xFX0A with no key down leaves the whole machine unchanged (the same
/// instruction is retried on the next step), and with a key down it sets
/// Vx to the lowest index that is down and advances normally. Whether the
/// machine is waiting is re-derived from the keypad on every step.
pub proof fn lemma_key_wait(m: MachineView, op: u16, rnd: u8)
    requires
        m.wf(),
        m.pc <= 4094,
        op_cat(op) == 0xF,
        op & 0xFF == 0x0A,
    ensures
        ({
            let r = spec_execute(m, op, rnd);
            &&& r is Ok
            &&& !any_key_down(m.keys) ==> r->Ok_0 == (MachineView { tone: false, ..m })
            &&& any_key_down(m.keys) ==> {
                &&& r->Ok_0.v[op_x(op)] == first_key_from(m.keys, 0)
                &&& r->Ok_0.pc == m.pc + 2
            }
        }),
{
    lemma_decode_bounds(op);
    if any_key_down(m.keys) {
        let k = choose|k: int| 0 <= k < 16 && m.keys[k];
        lemma_first_key_bound(m.keys, 0, k);
    }
}

proof fn lemma_first_key_bound(keys: Seq<bool>, s: int, k: int)
    requires
        0 <= s <= k < 16,
        keys[k],
    ensures
        s <= first_key_from(keys, s) <= k,
    decreases k - s,
{
    if !keys[s] && s < k {
        lemma_first_key_bound(keys, s + 1, k);
    }
}

/// A sprite draw writes the framebuffer and the collision flag only: it
/// never mutates memory, and leaves the index register, stack, timer and
/// keypad exactly as they were.
pub proof fn lemma_draw_touches_only_framebuffer(m: MachineView, op: u16, rnd: u8)
    requires
        op_cat(op) == 0xD,
    ensures
        ({
            let r = spec_execute(m, op, rnd);
            r is Ok ==> {
                &&& r->Ok_0.ram == m.ram
                &&& r->Ok_0.i == m.i
                &&& r->Ok_0.stack == m.stack
                &&& r->Ok_0.sp == m.sp
                &&& r->Ok_0.timer == m.timer
                &&& r->Ok_0.keys == m.keys
            }
        }),
{
}

/// BCD decomposition: executing 0xFX33 with the index register at least 3
/// below the top of memory stores the hundreds, tens and ones decimal
/// digits of Vx at I, I+1 and I+2, and leaves every other byte of memory
/// unchanged.
pub proof fn lemma_bcd(m: MachineView, op: u16, rnd: u8)
    requires
        m.wf(),
        m.pc <= 4094,
        op_cat(op) == 0xF,
        op & 0xFF == 0x33,
        m.i + 3 <= 4096,
    ensures
        ({
            let r = spec_execute(m, op, rnd);
            let vx = m.v[op_x(op)] as int;
            &&& r is Ok
            &&& r->Ok_0.ram[m.i as int] == vx / 100
            &&& r->Ok_0.ram[m.i + 1] == (vx / 10) % 10
            &&& r->Ok_0.ram[m.i + 2] == vx % 10
            &&& forall|j: int|
                0 <= j < 4096 && !(m.i <= j <= m.i + 2) ==> r->Ok_0.ram[j] == m.ram[j]
            &&& r->Ok_0.pc == m.pc + 2
        }),
{
    lemma_decode_bounds(op);
}

} // verus!
