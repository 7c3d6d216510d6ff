use vstd::prelude::*;

use crate::display::{draw_collides, draw_seq};

verus! {

/// Why an instruction step (or a program load) failed. Every failure is
/// fatal to the step in progress: the machine is left exactly as it was.
#[derive(Clone, Copy, PartialEq, Eq, Structural, Debug)]
pub enum Chip8Error {
    /// The fetched instruction matches no operation; carries the address it
    /// was fetched from and the raw 16-bit value.
    InvalidInstruction { address: u16, raw: u16 },
    /// A call would push beyond the 16-entry return stack.
    StackOverflow,
    /// A return was executed with an empty return stack.
    StackUnderflow,
    /// A decoded address or index-register access reaches beyond memory.
    OutOfBounds,
    /// A program load would run past the top of memory.
    ProgramTooLarge,
}

/// The mathematical state of the machine: memory, registers, call stack,
/// keypad, delay timer, framebuffer (row-major bits) and the one-shot tone
/// trigger.
#[verifier::ext_equal]
pub ghost struct MachineView {
    pub ram: Seq<u8>,
    pub v: Seq<u8>,
    pub i: u16,
    pub pc: u16,
    pub stack: Seq<u16>,
    pub sp: int,
    pub keys: Seq<bool>,
    pub timer: u8,
    pub fb: Seq<bool>,
    pub tone: bool,
}

impl MachineView {
    /// Fixed capacities: 4096 bytes of memory, 16 registers, a 16-entry
    /// call stack, 16 keys and a 64 x 32 framebuffer.
    pub open spec fn wf(self) -> bool {
        &&& self.ram.len() == 4096
        &&& self.v.len() == 16
        &&& self.stack.len() == 16
        &&& 0 <= self.sp <= 16
        &&& self.keys.len() == 16
        &&& self.fb.len() == 2048
    }
}

/// Opcode category: the most significant nibble.
pub open spec fn op_cat(op: u16) -> u16 {
    op >> 12
}

/// Register index x: bits 11..8.
pub open spec fn op_x(op: u16) -> int {
    ((op >> 8) & 0xF) as int
}

/// Register index y: bits 7..4.
pub open spec fn op_y(op: u16) -> int {
    ((op >> 4) & 0xF) as int
}

/// 4-bit immediate: bits 3..0.
pub open spec fn op_n(op: u16) -> int {
    (op & 0xF) as int
}

/// 8-bit immediate: bits 7..0.
pub open spec fn op_kk(op: u16) -> u8 {
    (op & 0xFF) as u8
}

/// 12-bit address immediate: bits 11..0.
pub open spec fn op_addr(op: u16) -> u16 {
    op & 0xFFF
}

/// The decode fields lie in their nibble-sized ranges.
pub proof fn lemma_decode_bounds(op: u16)
    by (bit_vector)
    ensures
        (op >> 12) < 16,
        ((op >> 8) & 0xF) < 16,
        ((op >> 4) & 0xF) < 16,
        (op & 0xF) < 16,
        (op & 0xFFF) < 4096,
{
}

/// Reduce a sum below 0x20000 into the 16-bit range.
pub open spec fn wrap16(s: int) -> u16 {
    if s < 0x10000 {
        s as u16
    } else {
        (s - 0x10000) as u16
    }
}

/// Reduce a sum below 512 into the 8-bit range.
pub open spec fn wrap8(s: int) -> u8 {
    if s < 256 {
        s as u8
    } else {
        (s - 256) as u8
    }
}

/// 8-bit wrapping difference of values in 0..256.
pub open spec fn wrap8_sub(a: int, b: int) -> u8 {
    if a >= b {
        (a - b) as u8
    } else {
        (a - b + 256) as u8
    }
}

/// Reduce a sum below 0x2000 into the 12-bit range.
pub open spec fn wrap12(s: int) -> u16 {
    if s < 0x1000 {
        s as u16
    } else {
        (s - 0x1000) as u16
    }
}

/// An all-off framebuffer.
pub open spec fn blank_fb() -> Seq<bool> {
    Seq::new(2048, |q: int| false)
}

/// Whether key `k` (a register value) is held down: indices 0..15 name
/// keys; any other value names no key and so is never down.
pub open spec fn key_down(keys: Seq<bool>, k: u8) -> bool {
    k < 16 && keys[k as int]
}

/// Whether any of the 16 keys is held down.
pub open spec fn any_key_down(keys: Seq<bool>) -> bool {
    exists|k: int| 0 <= k < 16 && keys[k]
}

/// The lowest index in j..16 whose key is down, or 16 if none is.
pub open spec fn first_key_from(keys: Seq<bool>, j: int) -> int
    decreases 16 - j,
{
    if j < 0 || j >= 16 {
        16
    } else if keys[j] {
        j
    } else {
        first_key_from(keys, j + 1)
    }
}

/// The index in j..16 of the lowest key that is down is first_key_from's
/// value from the start of the scan.
pub proof fn lemma_first_key(keys: Seq<bool>, j: int)
    requires
        0 <= j < 16,
        keys[j],
        forall|t: int| 0 <= t < j ==> !keys[t],
    ensures
        first_key_from(keys, 0) == j,
{
    lemma_first_key_from(keys, 0, j);
}

proof fn lemma_first_key_from(keys: Seq<bool>, s: int, j: int)
    requires
        0 <= s <= j < 16,
        keys[j],
        forall|t: int| s <= t < j ==> !keys[t],
    ensures
        first_key_from(keys, s) == j,
    decreases j - s,
{
    if s < j {
        lemma_first_key_from(keys, s + 1, j);
    }
}

/// The 80 bytes of the built-in font: one 5-row glyph per hexadecimal
/// digit, resident at the bottom of memory.
pub open spec fn font() -> Seq<u8> {
    seq![
        0xF0u8, 0x90, 0x90, 0x90, 0xF0,
        0x20, 0x60, 0x20, 0x20, 0x70,
        0xF0, 0x10, 0xF0, 0x80, 0xF0,
        0xF0, 0x10, 0xF0, 0x10, 0xF0,
        0x90, 0x90, 0xF0, 0x10, 0x10,
        0xF0, 0x80, 0xF0, 0x10, 0xF0,
        0xF0, 0x80, 0xF0, 0x90, 0xF0,
        0xF0, 0x10, 0x20, 0x40, 0x40,
        0xF0, 0x90, 0xF0, 0x90, 0xF0,
        0xF0, 0x90, 0xF0, 0x10, 0xF0,
        0xF0, 0x90, 0xF0, 0x90, 0x90,
        0xE0, 0x90, 0xE0, 0x90, 0xE0,
        0xF0, 0x80, 0x80, 0x80, 0xF0,
        0xE0, 0x90, 0x90, 0x90, 0xE0,
        0xF0, 0x80, 0xF0, 0x80, 0xF0,
        0xF0, 0x80, 0xF0, 0x80, 0x80,
    ]
}

/// The machine as construction leaves it: font in low memory, all other
/// memory, registers, stack, keys, timer and pixels zeroed, program
/// counter at 0x200.
pub open spec fn init_machine() -> MachineView {
    MachineView {
        ram: Seq::new(4096, |j: int| if j < 80 { font()[j] } else { 0u8 }),
        v: Seq::new(16, |j: int| 0u8),
        i: 0,
        pc: 0x200,
        stack: Seq::new(16, |j: int| 0u16),
        sp: 0,
        keys: Seq::new(16, |j: int| false),
        timer: 0,
        fb: Seq::new(2048, |q: int| false),
        tone: false,
    }
}

/// Memory after writing a program image verbatim at 0x200.
pub open spec fn loaded_ram(ram: Seq<u8>, rom: Seq<u8>) -> Seq<u8> {
    Seq::new(ram.len(), |j: int| if 0x200 <= j < 0x200 + rom.len() { rom[j - 0x200] } else { ram[j] })
}

/// Memory after storing v[0..=x] at base..=base+x.
pub open spec fn store_regs(ram: Seq<u8>, v: Seq<u8>, base: int, x: int) -> Seq<u8> {
    Seq::new(ram.len(), |j: int| if base <= j <= base + x { v[j - base] } else { ram[j] })
}

/// Registers after loading v[0..=x] from base..=base+x.
pub open spec fn load_regs(v: Seq<u8>, ram: Seq<u8>, base: int, x: int) -> Seq<u8> {
    Seq::new(v.len(), |j: int| if 0 <= j <= x { ram[base + j] } else { v[j] })
}

/// The outcome of one decoded instruction: the machine after it, or the
/// error that aborted it.
pub type StepOutcome = Result<MachineView, Chip8Error>;

/// The invalid-instruction outcome, carrying the fetch address and the raw
/// instruction.
pub open spec fn invalid(m: MachineView, op: u16) -> StepOutcome {
    Err(Chip8Error::InvalidInstruction { address: m.pc, raw: op })
}

/// Skip-style control flow: advance past this instruction, and past the
/// next one too when `cond` holds.
pub open spec fn skipped(m: MachineView, cond: bool) -> MachineView {
    MachineView { pc: wrap16(m.pc + if cond { 4int } else { 2int }), tone: false, ..m }
}

/// A register write followed by the standard advance.
pub open spec fn with_regs(m: MachineView, v2: Seq<u8>) -> MachineView {
    MachineView { v: v2, pc: wrap16(m.pc + 2), tone: false, ..m }
}

/// Category 0x0: clear the screen, or return from a subroutine.
pub open spec fn step_cat_zero(m: MachineView, op: u16) -> StepOutcome {
    if op == 0x00E0 {
        Ok(MachineView { fb: blank_fb(), pc: wrap16(m.pc + 2), tone: false, ..m })
    } else if op == 0x00EE {
        if m.sp < 1 {
            Err(Chip8Error::StackUnderflow)
        } else {
            Ok(MachineView {
                sp: m.sp - 1,
                pc: wrap16(m.stack[m.sp - 1] + 2),
                tone: false,
                ..m
            })
        }
    } else {
        invalid(m, op)
    }
}

/// Category 0x1: jump to addr.
pub open spec fn step_cat_one(m: MachineView, op: u16) -> StepOutcome {
    Ok(MachineView { pc: op_addr(op), tone: false, ..m })
}

/// Category 0x2: call addr, pushing the call instruction's own address.
pub open spec fn step_cat_two(m: MachineView, op: u16) -> StepOutcome {
    if m.sp >= 16 {
        Err(Chip8Error::StackOverflow)
    } else {
        Ok(MachineView {
            stack: m.stack.update(m.sp, m.pc),
            sp: m.sp + 1,
            pc: op_addr(op),
            tone: false,
            ..m
        })
    }
}

/// Category 0x3: skip when Vx == kk.
pub open spec fn step_cat_three(m: MachineView, op: u16) -> StepOutcome {
    Ok(skipped(m, m.v[op_x(op)] == op_kk(op)))
}

/// Category 0x4: skip when Vx != kk.
pub open spec fn step_cat_four(m: MachineView, op: u16) -> StepOutcome {
    Ok(skipped(m, m.v[op_x(op)] != op_kk(op)))
}

/// Category 0x5: skip when Vx == Vy; only sub-opcode 0 exists.
pub open spec fn step_cat_five(m: MachineView, op: u16) -> StepOutcome {
    if op_n(op) == 0 {
        Ok(skipped(m, m.v[op_x(op)] == m.v[op_y(op)]))
    } else {
        invalid(m, op)
    }
}

/// Category 0x6: Vx = kk.
pub open spec fn step_cat_six(m: MachineView, op: u16) -> StepOutcome {
    Ok(with_regs(m, m.v.update(op_x(op), op_kk(op))))
}

/// Category 0x7: Vx = Vx + kk, wrapping modulo 256.
pub open spec fn step_cat_seven(m: MachineView, op: u16) -> StepOutcome {
    Ok(with_regs(m, m.v.update(op_x(op), wrap8(m.v[op_x(op)] + op_kk(op)))))
}

/// Category 0x8: register-to-register arithmetic and shifts. The flag
/// register 0xF is written first, and the destination register second, so
/// an instruction whose x (or read operand) is 0xF sees the flag write.
pub open spec fn step_cat_eight(m: MachineView, op: u16) -> StepOutcome {
    let x = op_x(op);
    let y = op_y(op);
    let vx = m.v[x];
    let vy = m.v[y];
    let sub = op_n(op);
    if sub == 0 {
        Ok(with_regs(m, m.v.update(x, vy)))
    } else if sub == 1 {
        Ok(with_regs(m, m.v.update(x, vx | vy)))
    } else if sub == 2 {
        Ok(with_regs(m, m.v.update(x, vx & vy)))
    } else if sub == 3 {
        Ok(with_regs(m, m.v.update(x, vx ^ vy)))
    } else if sub == 4 {
        let v1 = m.v.update(0xF, if vx + vy > 255 { 1u8 } else { 0u8 });
        Ok(with_regs(m, v1.update(x, wrap8(vx + vy))))
    } else if sub == 5 {
        let v1 = m.v.update(0xF, if vx > vy { 1u8 } else { 0u8 });
        Ok(with_regs(m, v1.update(x, wrap8_sub(v1[x] as int, v1[y] as int))))
    } else if sub == 6 {
        let v1 = m.v.update(0xF, vx & 1);
        Ok(with_regs(m, v1.update(x, v1[x] >> 1u8)))
    } else if sub == 7 {
        let v1 = m.v.update(0xF, if vy > vx { 1u8 } else { 0u8 });
        Ok(with_regs(m, v1.update(x, wrap8_sub(v1[y] as int, v1[x] as int))))
    } else if sub == 0xE {
        let v1 = m.v.update(0xF, (vx & 0x80) >> 7u8);
        Ok(with_regs(m, v1.update(x, v1[x] << 1u8)))
    } else {
        invalid(m, op)
    }
}

/// Category 0x9: skip when Vx != Vy; only sub-opcode 0 exists.
pub open spec fn step_cat_nine(m: MachineView, op: u16) -> StepOutcome {
    if op_n(op) == 0 {
        Ok(skipped(m, m.v[op_x(op)] != m.v[op_y(op)]))
    } else {
        invalid(m, op)
    }
}

/// Category 0xA: I = addr.
pub open spec fn step_cat_a(m: MachineView, op: u16) -> StepOutcome {
    Ok(MachineView { i: op_addr(op), pc: wrap16(m.pc + 2), tone: false, ..m })
}

/// Category 0xB: jump to the 12-bit-masked sum of V0 and addr.
pub open spec fn step_cat_b(m: MachineView, op: u16) -> StepOutcome {
    Ok(MachineView { pc: wrap12(m.v[0] + op_addr(op)), tone: false, ..m })
}

/// Category 0xC: Vx = kk AND a freshly drawn random byte.
pub open spec fn step_cat_c(m: MachineView, op: u16, rnd: u8) -> StepOutcome {
    Ok(with_regs(m, m.v.update(op_x(op), op_kk(op) & rnd)))
}

/// Category 0xD: draw an n-row sprite from memory at I, at screen position
/// (Vx mod 64, Vy mod 32); VF reports the collision flag.
pub open spec fn step_cat_d(m: MachineView, op: u16) -> StepOutcome {
    let x0 = m.v[op_x(op)] % 64;
    let y0 = m.v[op_y(op)] % 32;
    let n = op_n(op);
    if n > 0 && m.i + n > 4096 {
        Err(Chip8Error::OutOfBounds)
    } else {
        let rows = if n == 0 {
            Seq::<u8>::empty()
        } else {
            m.ram.subrange(m.i as int, m.i + n)
        };
        let flag: u8 = if draw_collides(m.fb, rows, x0 as int, y0 as int) {
            1
        } else {
            0
        };
        Ok(MachineView {
            fb: draw_seq(m.fb, rows, x0 as int, y0 as int),
            v: m.v.update(0xF, flag),
            pc: wrap16(m.pc + 2),
            tone: false,
            ..m
        })
    }
}

/// Category 0xE: skip on key state; only sub-opcodes 0x9E and 0xA1 exist.
pub open spec fn step_cat_e(m: MachineView, op: u16) -> StepOutcome {
    let sub = op & 0xFF;
    if sub == 0x9E {
        Ok(skipped(m, key_down(m.keys, m.v[op_x(op)])))
    } else if sub == 0xA1 {
        Ok(skipped(m, !key_down(m.keys, m.v[op_x(op)])))
    } else {
        invalid(m, op)
    }
}

/// Category 0xF: timer, key wait, tone, index arithmetic, font lookup,
/// BCD, and register store/load.
pub open spec fn step_cat_f(m: MachineView, op: u16) -> StepOutcome {
    let sub = op & 0xFF;
    let x = op_x(op);
    let vx = m.v[x];
    if sub == 0x07 {
        Ok(with_regs(m, m.v.update(x, m.timer)))
    } else if sub == 0x0A {
        if any_key_down(m.keys) {
            Ok(with_regs(m, m.v.update(x, first_key_from(m.keys, 0) as u8)))
        } else {
            // no key is down: retry the same instruction on the next step
            Ok(MachineView { tone: false, ..m })
        }
    } else if sub == 0x15 {
        Ok(MachineView { timer: vx, pc: wrap16(m.pc + 2), tone: false, ..m })
    } else if sub == 0x18 {
        Ok(MachineView { pc: wrap16(m.pc + 2), tone: true, ..m })
    } else if sub == 0x1E {
        Ok(MachineView { i: wrap16(m.i + vx), pc: wrap16(m.pc + 2), tone: false, ..m })
    } else if sub == 0x29 {
        Ok(MachineView { i: (vx * 5) as u16, pc: wrap16(m.pc + 2), tone: false, ..m })
    } else if sub == 0x33 {
        if m.i + 3 > 4096 {
            Err(Chip8Error::OutOfBounds)
        } else {
            let ram2 = m.ram.update(m.i as int, ((vx as int) / 100) as u8).update(
                m.i + 1,
                (((vx as int) / 10) % 10) as u8,
            ).update(m.i + 2, ((vx as int) % 10) as u8);
            Ok(MachineView { ram: ram2, pc: wrap16(m.pc + 2), tone: false, ..m })
        }
    } else if sub == 0x55 {
        if m.i + x + 1 > 4096 {
            Err(Chip8Error::OutOfBounds)
        } else {
            Ok(MachineView {
                ram: store_regs(m.ram, m.v, m.i as int, x),
                i: (m.i + x + 1) as u16,
                pc: wrap16(m.pc + 2),
                tone: false,
                ..m
            })
        }
    } else if sub == 0x65 {
        if m.i + x + 1 > 4096 {
            Err(Chip8Error::OutOfBounds)
        } else {
            Ok(with_regs(m, load_regs(m.v, m.ram, m.i as int, x)))
        }
    } else {
        invalid(m, op)
    }
}

/// The complete decode/execute relation: the machine after executing the
/// 16-bit instruction `op` on machine `m`, where `rnd` is the byte the
/// random source produced (read only by category 0xC). Every outcome
/// either advances the machine or reports an error and leaves it unchanged.
pub open spec fn spec_execute(m: MachineView, op: u16, rnd: u8) -> StepOutcome {
    let cat = op_cat(op);
    if cat == 0 {
        step_cat_zero(m, op)
    } else if cat == 1 {
        step_cat_one(m, op)
    } else if cat == 2 {
        step_cat_two(m, op)
    } else if cat == 3 {
        step_cat_three(m, op)
    } else if cat == 4 {
        step_cat_four(m, op)
    } else if cat == 5 {
        step_cat_five(m, op)
    } else if cat == 6 {
        step_cat_six(m, op)
    } else if cat == 7 {
        step_cat_seven(m, op)
    } else if cat == 8 {
        step_cat_eight(m, op)
    } else if cat == 9 {
        step_cat_nine(m, op)
    } else if cat == 0xA {
        step_cat_a(m, op)
    } else if cat == 0xB {
        step_cat_b(m, op)
    } else if cat == 0xC {
        step_cat_c(m, op, rnd)
    } else if cat == 0xD {
        step_cat_d(m, op)
    } else if cat == 0xE {
        step_cat_e(m, op)
    } else {
        step_cat_f(m, op)
    }
}

/// The 16-bit instruction at the program counter: high byte first.
pub open spec fn fetched_op(m: MachineView) -> u16 {
    (m.ram[m.pc as int] * 256 + m.ram[m.pc as int + 1]) as u16
}

/// Executing an instruction preserves the machine's capacities.
pub proof fn lemma_execute_wf(m: MachineView, op: u16, rnd: u8)
    requires
        m.wf(),
    ensures
        spec_execute(m, op, rnd) is Ok ==> spec_execute(m, op, rnd)->Ok_0.wf(),
{
    lemma_decode_bounds(op);
}

/// Only category 0xC reads the random byte: every other instruction's
/// outcome is the same whatever byte was drawn.
pub proof fn lemma_execute_rnd_irrelevant(m: MachineView, op: u16, rnd1: u8, rnd2: u8)
    requires
        op_cat(op) != 0xC,
    ensures
        spec_execute(m, op, rnd1) == spec_execute(m, op, rnd2),
{
}

} // verus!
