use vstd::prelude::*;

use crate::display::Display;
use crate::machine::{
    any_key_down, blank_fb, fetched_op, init_machine, lemma_decode_bounds,
    lemma_execute_rnd_irrelevant, lemma_first_key, loaded_ram, op_cat, skipped, spec_execute,
    step_cat_a, step_cat_b, step_cat_c, step_cat_d, step_cat_e, step_cat_eight, step_cat_f,
    step_cat_five, step_cat_four, step_cat_nine, step_cat_one, step_cat_seven, step_cat_six,
    step_cat_three, step_cat_two, step_cat_zero, store_regs, load_regs, font, Chip8Error,
    MachineView, StepOutcome,
};

verus! {

/// How an execute method's result and state change relate to the outcome
/// the decode/execute relation prescribes: on success the machine becomes
/// exactly the prescribed one; on an error the prescribed error is
/// returned and the machine is left exactly as it was.
pub open spec fn obeys(
    r: Result<(), Chip8Error>,
    pre: MachineView,
    post: MachineView,
    outcome: StepOutcome,
) -> bool {
    match outcome {
        Ok(mv) => r is Ok && post == mv,
        Err(e) => r == Err::<(), Chip8Error>(e) && post == pre,
    }
}

/// Relies on rand::Rng::gen_range over rand::thread_rng to draw one byte;
/// nothing is assumed about the value drawn.
#[verifier::external_body]
fn random_byte() -> u8 {
    rand::Rng::gen_range(&mut rand::thread_rng(), 0..=255u8)
}

/// The machine: memory with the built-in font, sixteen 8-bit registers,
/// the 16-bit index register, the program counter, the call stack, the
/// keypad image, the delay timer, the framebuffer and the one-shot tone
/// trigger. Its abstract state is a MachineView.
pub struct Cpu {
    ram: Vec<u8>,
    v_register: Vec<u8>,
    i_register: u16,
    pc: u16,
    stack: Vec<u16>,
    sp: usize,
    display: Display,
    key: Vec<bool>,
    delay_timer: u8,
    tone: bool,
}

impl View for Cpu {
    type V = MachineView;

    closed spec fn view(&self) -> MachineView {
        MachineView {
            ram: self.ram@,
            v: self.v_register@,
            i: self.i_register,
            pc: self.pc,
            stack: self.stack@,
            sp: self.sp as int,
            keys: self.key@,
            timer: self.delay_timer,
            fb: self.display@,
            tone: self.tone,
        }
    }
}

/// The 80 font bytes: 16 glyphs of 5 rows each.
fn font_sprites() -> (f: Vec<u8>)
    ensures
        f@ == font(),
{
    let mut f: Vec<u8> = Vec::new();
    f.push(0xF0); f.push(0x90); f.push(0x90); f.push(0x90); f.push(0xF0);
    f.push(0x20); f.push(0x60); f.push(0x20); f.push(0x20); f.push(0x70);
    f.push(0xF0); f.push(0x10); f.push(0xF0); f.push(0x80); f.push(0xF0);
    f.push(0xF0); f.push(0x10); f.push(0xF0); f.push(0x10); f.push(0xF0);
    f.push(0x90); f.push(0x90); f.push(0xF0); f.push(0x10); f.push(0x10);
    f.push(0xF0); f.push(0x80); f.push(0xF0); f.push(0x10); f.push(0xF0);
    f.push(0xF0); f.push(0x80); f.push(0xF0); f.push(0x90); f.push(0xF0);
    f.push(0xF0); f.push(0x10); f.push(0x20); f.push(0x40); f.push(0x40);
    f.push(0xF0); f.push(0x90); f.push(0xF0); f.push(0x90); f.push(0xF0);
    f.push(0xF0); f.push(0x90); f.push(0xF0); f.push(0x10); f.push(0xF0);
    f.push(0xF0); f.push(0x90); f.push(0xF0); f.push(0x90); f.push(0x90);
    f.push(0xE0); f.push(0x90); f.push(0xE0); f.push(0x90); f.push(0xE0);
    f.push(0xF0); f.push(0x80); f.push(0x80); f.push(0x80); f.push(0xF0);
    f.push(0xE0); f.push(0x90); f.push(0x90); f.push(0x90); f.push(0xE0);
    f.push(0xF0); f.push(0x80); f.push(0xF0); f.push(0x80); f.push(0xF0);
    f.push(0xF0); f.push(0x80); f.push(0xF0); f.push(0x80); f.push(0x80);
    proof {
        assert(f@ =~= font());
    }
    f
}

impl Cpu {
    /// The machine's capacities hold.
    pub open spec fn wf(&self) -> bool {
        self@.wf()
    }

    /// A freshly initialized machine: font in low memory, everything else
    /// zeroed, program counter at 0x200.
    pub fn new() -> (c: Cpu)
        ensures
            c.wf(),
            c@ == init_machine(),
    {
        let mut ram: Vec<u8> = font_sprites();
        while ram.len() < 4096
            invariant
                80 <= ram@.len() <= 4096,
                forall|j: int| 0 <= j < 80 ==> ram@[j] == font()[j],
                forall|j: int| 80 <= j < ram@.len() ==> ram@[j] == 0u8,
            decreases 4096 - ram@.len(),
        {
            ram.push(0u8);
        }
        let mut v_register: Vec<u8> = Vec::new();
        while v_register.len() < 16
            invariant
                v_register@.len() <= 16,
                forall|j: int| 0 <= j < v_register@.len() ==> v_register@[j] == 0u8,
            decreases 16 - v_register@.len(),
        {
            v_register.push(0u8);
        }
        let mut stack: Vec<u16> = Vec::new();
        while stack.len() < 16
            invariant
                stack@.len() <= 16,
                forall|j: int| 0 <= j < stack@.len() ==> stack@[j] == 0u16,
            decreases 16 - stack@.len(),
        {
            stack.push(0u16);
        }
        let mut key: Vec<bool> = Vec::new();
        while key.len() < 16
            invariant
                key@.len() <= 16,
                forall|j: int| 0 <= j < key@.len() ==> !key@[j],
            decreases 16 - key@.len(),
        {
            key.push(false);
        }
        let c = Cpu {
            ram,
            v_register,
            i_register: 0,
            pc: 0x200,
            stack,
            sp: 0,
            display: Display::new(),
            key,
            delay_timer: 0,
            tone: false,
        };
        proof {
            assert(c@.ram =~= init_machine().ram);
            assert(c@.v =~= init_machine().v);
            assert(c@.stack =~= init_machine().stack);
            assert(c@.keys =~= init_machine().keys);
            assert(c@.fb =~= init_machine().fb);
            assert(c@ =~~= init_machine());
        }
        c
    }

    /// Write a program image into memory starting at 0x200; a program that
    /// would run past the top of memory is rejected whole.
    pub fn load_rom(&mut self, rom: Vec<u8>) -> (r: Result<(), Chip8Error>)
        requires
            old(self).wf(),
        ensures
            final(self).wf(),
            rom@.len() > 3584 ==> r == Err::<(), Chip8Error>(Chip8Error::ProgramTooLarge)
                && final(self)@ == old(self)@,
            rom@.len() <= 3584 ==> r is Ok && final(self)@ == (MachineView {
                ram: loaded_ram(old(self)@.ram, rom@),
                ..old(self)@
            }),
    {
        if rom.len() > 3584 {
            return Err(Chip8Error::ProgramTooLarge);
        }
        let mut j: usize = 0;
        while j < rom.len()
            invariant
                old(self).wf(),
                self.wf(),
                rom@.len() <= 3584,
                0 <= j <= rom@.len(),
                forall|t: int| 0 <= t < j ==> self@.ram[0x200 + t] == rom@[t],
                forall|t: int| 0 <= t < 4096 && !(0x200 <= t < 0x200 + j) ==> self@.ram[t]
                    == old(self)@.ram[t],
                self@ == (MachineView { ram: self@.ram, ..old(self)@ }),
            decreases rom@.len() - j,
        {
            let b: u8 = rom[j];
            self.ram.set(0x200 + j, b);
            j += 1;
        }
        proof {
            assert(self@.ram =~= loaded_ram(old(self)@.ram, rom@));
        }
        Ok(())
    }

    /// One external timer tick: the delay timer counts down by exactly one
    /// while positive and stays at zero otherwise.
    pub fn update_timers(&mut self)
        requires
            old(self).wf(),
        ensures
            final(self).wf(),
            final(self)@ == (MachineView {
                timer: if old(self)@.timer > 0 {
                    (old(self)@.timer - 1) as u8
                } else {
                    0u8
                },
                ..old(self)@
            }),
    {
        if self.delay_timer > 0 {
            self.delay_timer = self.delay_timer - 1;
        }
    }

    /// Refresh the keypad image from the host: key `j` is down exactly
    /// when `keys[j]` is true.
    pub fn key_input(&mut self, keys: [bool; 16])
        requires
            old(self).wf(),
        ensures
            final(self).wf(),
            final(self)@ == (MachineView { keys: keys@, ..old(self)@ }),
    {
        let mut j: usize = 0;
        while j < 16
            invariant
                old(self).wf(),
                self.wf(),
                0 <= j <= 16,
                forall|t: int| 0 <= t < j ==> self@.keys[t] == keys@[t],
                forall|t: int| j <= t < 16 ==> self@.keys[t] == old(self)@.keys[t],
                self@ == (MachineView { keys: self@.keys, ..old(self)@ }),
            decreases 16 - j,
        {
            let down: bool = keys[j];
            self.key.set(j, down);
            j += 1;
        }
        proof {
            assert(self@.keys =~= keys@);
        }
    }

    /// Read general register x.
    pub fn get_v(&self, x: usize) -> (val: u8)
        requires
            self.wf(),
            x < 16,
        ensures
            val == self@.v[x as int],
    {
        self.v_register[x]
    }

    /// Read the index register I.
    pub fn get_i(&self) -> (val: u16)
        ensures
            val == self@.i,
    {
        self.i_register
    }

    /// Read the program counter.
    pub fn get_pc(&self) -> (val: u16)
        ensures
            val == self@.pc,
    {
        self.pc
    }

    /// Read the delay timer.
    pub fn get_delay_timer(&self) -> (val: u8)
        ensures
            val == self@.timer,
    {
        self.delay_timer
    }

    /// Read one memory byte.
    pub fn ram_byte(&self, addr: usize) -> (b: u8)
        requires
            self.wf(),
            addr < 4096,
        ensures
            b == self@.ram[addr as int],
    {
        self.ram[addr]
    }

    /// Read one framebuffer pixel.
    pub fn pixel(&self, x: usize, y: usize) -> (on: bool)
        requires
            self.wf(),
            x < 64,
            y < 32,
        ensures
            on == self@.fb[y as int * 64 + x as int],
    {
        self.display.pixel(x, y)
    }

    /// Whether the last executed instruction fired the tone trigger.
    pub fn tone_active(&self) -> (t: bool)
        ensures
            t == self@.tone,
    {
        self.tone
    }

    /// Advance past this instruction, and past the next one too when
    /// `cond` holds.
    fn skip_advance(&mut self, cond: bool)
        requires
            old(self).wf(),
            old(self)@.pc <= 4094,
        ensures
            final(self).wf(),
            final(self)@ == skipped(old(self)@, cond),
    {
        if cond {
            self.pc = self.pc + 4;
        } else {
            self.pc = self.pc + 2;
        }
        self.tone = false;
    }

    fn execute_category_zero(&mut self, op: u16) -> (r: Result<(), Chip8Error>)
        requires
            old(self).wf(),
            old(self)@.pc <= 4094,
        ensures
            final(self).wf(),
            obeys(r, old(self)@, final(self)@, step_cat_zero(old(self)@, op)),
    {
        if op == 0x00E0 {
            self.display.clear();
            self.pc = self.pc + 2;
            self.tone = false;
            proof {
                assert(self@.fb =~= blank_fb());
            }
            Ok(())
        } else if op == 0x00EE {
            if self.sp == 0 {
                return Err(Chip8Error::StackUnderflow);
            }
            self.sp = self.sp - 1;
            let ret: u16 = self.stack[self.sp];
            let t: usize = ret as usize + 2;
            self.pc = if t < 65536 {
                t as u16
            } else {
                (t - 65536) as u16
            };
            self.tone = false;
            Ok(())
        } else {
            Err(Chip8Error::InvalidInstruction { address: self.pc, raw: op })
        }
    }

    fn execute_category_one(&mut self, op: u16) -> (r: Result<(), Chip8Error>)
        requires
            old(self).wf(),
        ensures
            final(self).wf(),
            obeys(r, old(self)@, final(self)@, step_cat_one(old(self)@, op)),
    {
        self.pc = op & 0x0FFF;
        self.tone = false;
        Ok(())
    }

    fn execute_category_two(&mut self, op: u16) -> (r: Result<(), Chip8Error>)
        requires
            old(self).wf(),
        ensures
            final(self).wf(),
            obeys(r, old(self)@, final(self)@, step_cat_two(old(self)@, op)),
    {
        if self.sp >= 16 {
            return Err(Chip8Error::StackOverflow);
        }
        self.stack.set(self.sp, self.pc);
        self.sp = self.sp + 1;
        self.pc = op & 0x0FFF;
        self.tone = false;
        Ok(())
    }

    fn execute_category_three(&mut self, op: u16) -> (r: Result<(), Chip8Error>)
        requires
            old(self).wf(),
            old(self)@.pc <= 4094,
        ensures
            final(self).wf(),
            obeys(r, old(self)@, final(self)@, step_cat_three(old(self)@, op)),
    {
        proof {
            lemma_decode_bounds(op);
        }
        let x: usize = ((op >> 8) & 0xF) as usize;
        let kk: u8 = (op & 0xFF) as u8;
        let cond: bool = self.v_register[x] == kk;
        self.skip_advance(cond);
        Ok(())
    }

    fn execute_category_four(&mut self, op: u16) -> (r: Result<(), Chip8Error>)
        requires
            old(self).wf(),
            old(self)@.pc <= 4094,
        ensures
            final(self).wf(),
            obeys(r, old(self)@, final(self)@, step_cat_four(old(self)@, op)),
    {
        proof {
            lemma_decode_bounds(op);
        }
        let x: usize = ((op >> 8) & 0xF) as usize;
        let kk: u8 = (op & 0xFF) as u8;
        let cond: bool = self.v_register[x] != kk;
        self.skip_advance(cond);
        Ok(())
    }

    fn execute_category_five(&mut self, op: u16) -> (r: Result<(), Chip8Error>)
        requires
            old(self).wf(),
            old(self)@.pc <= 4094,
        ensures
            final(self).wf(),
            obeys(r, old(self)@, final(self)@, step_cat_five(old(self)@, op)),
    {
        proof {
            lemma_decode_bounds(op);
        }
        if op & 0xF != 0 {
            return Err(Chip8Error::InvalidInstruction { address: self.pc, raw: op });
        }
        let x: usize = ((op >> 8) & 0xF) as usize;
        let y: usize = ((op >> 4) & 0xF) as usize;
        let cond: bool = self.v_register[x] == self.v_register[y];
        self.skip_advance(cond);
        Ok(())
    }

    fn execute_category_six(&mut self, op: u16) -> (r: Result<(), Chip8Error>)
        requires
            old(self).wf(),
            old(self)@.pc <= 4094,
        ensures
            final(self).wf(),
            obeys(r, old(self)@, final(self)@, step_cat_six(old(self)@, op)),
    {
        proof {
            lemma_decode_bounds(op);
        }
        let x: usize = ((op >> 8) & 0xF) as usize;
        let kk: u8 = (op & 0xFF) as u8;
        self.v_register.set(x, kk);
        self.pc = self.pc + 2;
        self.tone = false;
        Ok(())
    }

    fn execute_category_seven(&mut self, op: u16) -> (r: Result<(), Chip8Error>)
        requires
            old(self).wf(),
            old(self)@.pc <= 4094,
        ensures
            final(self).wf(),
            obeys(r, old(self)@, final(self)@, step_cat_seven(old(self)@, op)),
    {
        proof {
            lemma_decode_bounds(op);
        }
        let x: usize = ((op >> 8) & 0xF) as usize;
        let kk: u8 = (op & 0xFF) as u8;
        let s: u16 = self.v_register[x] as u16 + kk as u16;
        let val: u8 = if s < 256 {
            s as u8
        } else {
            (s - 256) as u8
        };
        self.v_register.set(x, val);
        self.pc = self.pc + 2;
        self.tone = false;
        Ok(())
    }

    fn execute_category_eight(&mut self, op: u16) -> (r: Result<(), Chip8Error>)
        requires
            old(self).wf(),
            old(self)@.pc <= 4094,
        ensures
            final(self).wf(),
            obeys(r, old(self)@, final(self)@, step_cat_eight(old(self)@, op)),
    {
        proof {
            lemma_decode_bounds(op);
        }
        let x: usize = ((op >> 8) & 0xF) as usize;
        let y: usize = ((op >> 4) & 0xF) as usize;
        let sub: u16 = op & 0xF;
        let vx: u8 = self.v_register[x];
        let vy: u8 = self.v_register[y];
        if sub == 0 {
            self.v_register.set(x, vy);
        } else if sub == 1 {
            self.v_register.set(x, vx | vy);
        } else if sub == 2 {
            self.v_register.set(x, vx & vy);
        } else if sub == 3 {
            self.v_register.set(x, vx ^ vy);
        } else if sub == 4 {
            let s: u16 = vx as u16 + vy as u16;
            let flag: u8 = if s > 255 {
                1
            } else {
                0
            };
            self.v_register.set(15, flag);
            let val: u8 = if s < 256 {
                s as u8
            } else {
                (s - 256) as u8
            };
            self.v_register.set(x, val);
        } else if sub == 5 {
            let flag: u8 = if vx > vy {
                1
            } else {
                0
            };
            self.v_register.set(15, flag);
            let a: u8 = self.v_register[x];
            let b: u8 = self.v_register[y];
            let val: u8 = if a >= b {
                a - b
            } else {
                (a as u16 + 256 - b as u16) as u8
            };
            self.v_register.set(x, val);
        } else if sub == 6 {
            self.v_register.set(15, vx & 1);
            let a: u8 = self.v_register[x];
            self.v_register.set(x, a >> 1u8);
        } else if sub == 7 {
            let flag: u8 = if vy > vx {
                1
            } else {
                0
            };
            self.v_register.set(15, flag);
            let a: u8 = self.v_register[x];
            let b: u8 = self.v_register[y];
            let val: u8 = if b >= a {
                b - a
            } else {
                (b as u16 + 256 - a as u16) as u8
            };
            self.v_register.set(x, val);
        } else if sub == 0xE {
            self.v_register.set(15, (vx & 0x80) >> 7u8);
            let a: u8 = self.v_register[x];
            self.v_register.set(x, a << 1u8);
        } else {
            return Err(Chip8Error::InvalidInstruction { address: self.pc, raw: op });
        }
        self.pc = self.pc + 2;
        self.tone = false;
        Ok(())
    }

    fn execute_category_nine(&mut self, op: u16) -> (r: Result<(), Chip8Error>)
        requires
            old(self).wf(),
            old(self)@.pc <= 4094,
        ensures
            final(self).wf(),
            obeys(r, old(self)@, final(self)@, step_cat_nine(old(self)@, op)),
    {
        proof {
            lemma_decode_bounds(op);
        }
        if op & 0xF != 0 {
            return Err(Chip8Error::InvalidInstruction { address: self.pc, raw: op });
        }
        let x: usize = ((op >> 8) & 0xF) as usize;
        let y: usize = ((op >> 4) & 0xF) as usize;
        let cond: bool = self.v_register[x] != self.v_register[y];
        self.skip_advance(cond);
        Ok(())
    }

    fn execute_category_a(&mut self, op: u16) -> (r: Result<(), Chip8Error>)
        requires
            old(self).wf(),
            old(self)@.pc <= 4094,
        ensures
            final(self).wf(),
            obeys(r, old(self)@, final(self)@, step_cat_a(old(self)@, op)),
    {
        self.i_register = op & 0x0FFF;
        self.pc = self.pc + 2;
        self.tone = false;
        Ok(())
    }

    fn execute_category_b(&mut self, op: u16) -> (r: Result<(), Chip8Error>)
        requires
            old(self).wf(),
        ensures
            final(self).wf(),
            obeys(r, old(self)@, final(self)@, step_cat_b(old(self)@, op)),
    {
        proof {
            lemma_decode_bounds(op);
        }
        let s: u16 = self.v_register[0] as u16 + (op & 0x0FFF);
        self.pc = if s < 0x1000 {
            s
        } else {
            s - 0x1000
        };
        self.tone = false;
        Ok(())
    }

    fn execute_category_c(&mut self, op: u16, rnd: u8) -> (r: Result<(), Chip8Error>)
        requires
            old(self).wf(),
            old(self)@.pc <= 4094,
        ensures
            final(self).wf(),
            obeys(r, old(self)@, final(self)@, step_cat_c(old(self)@, op, rnd)),
    {
        proof {
            lemma_decode_bounds(op);
        }
        let x: usize = ((op >> 8) & 0xF) as usize;
        let kk: u8 = (op & 0xFF) as u8;
        self.v_register.set(x, kk & rnd);
        self.pc = self.pc + 2;
        self.tone = false;
        Ok(())
    }

    fn execute_category_d(&mut self, op: u16) -> (r: Result<(), Chip8Error>)
        requires
            old(self).wf(),
            old(self)@.pc <= 4094,
        ensures
            final(self).wf(),
            obeys(r, old(self)@, final(self)@, step_cat_d(old(self)@, op)),
    {
        proof {
            lemma_decode_bounds(op);
        }
        let x: usize = ((op >> 8) & 0xF) as usize;
        let y: usize = ((op >> 4) & 0xF) as usize;
        let n: usize = (op & 0xF) as usize;
        let x0: usize = (self.v_register[x] % 64) as usize;
        let y0: usize = (self.v_register[y] % 32) as usize;
        if n > 0 && self.i_register as usize + n > 4096 {
            return Err(Chip8Error::OutOfBounds);
        }
        let base: usize = self.i_register as usize;
        let mut rows: Vec<u8> = Vec::new();
        let mut j: usize = 0;
        while j < n
            invariant
                self.wf(),
                n <= 15,
                n > 0 ==> base + n <= 4096,
                base == self@.i,
                0 <= j <= n,
                rows@.len() == j,
                forall|t: int| 0 <= t < j ==> rows@[t] == self@.ram[base + t],
            decreases n - j,
        {
            let b: u8 = self.ram[base + j];
            rows.push(b);
            j += 1;
        }
        proof {
            if n == 0 {
                assert(rows@ =~= Seq::<u8>::empty());
            } else {
                assert(rows@ =~= self@.ram.subrange(self@.i as int, self@.i + n));
            }
        }
        let collision: bool = self.display.draw(x0, y0, &rows);
        let flag: u8 = if collision {
            1
        } else {
            0
        };
        self.v_register.set(15, flag);
        self.pc = self.pc + 2;
        self.tone = false;
        Ok(())
    }

    fn execute_category_e(&mut self, op: u16) -> (r: Result<(), Chip8Error>)
        requires
            old(self).wf(),
            old(self)@.pc <= 4094,
        ensures
            final(self).wf(),
            obeys(r, old(self)@, final(self)@, step_cat_e(old(self)@, op)),
    {
        proof {
            lemma_decode_bounds(op);
        }
        let sub: u16 = op & 0xFF;
        let x: usize = ((op >> 8) & 0xF) as usize;
        let vx: u8 = self.v_register[x];
        let down: bool = if vx < 16 {
            self.key[vx as usize]
        } else {
            false
        };
        if sub == 0x9E {
            self.skip_advance(down);
            Ok(())
        } else if sub == 0xA1 {
            self.skip_advance(!down);
            Ok(())
        } else {
            Err(Chip8Error::InvalidInstruction { address: self.pc, raw: op })
        }
    }

    fn execute_category_f(&mut self, op: u16) -> (r: Result<(), Chip8Error>)
        requires
            old(self).wf(),
            old(self)@.pc <= 4094,
        ensures
            final(self).wf(),
            obeys(r, old(self)@, final(self)@, step_cat_f(old(self)@, op)),
    {
        proof {
            lemma_decode_bounds(op);
        }
        let sub: u16 = op & 0xFF;
        let x: usize = ((op >> 8) & 0xF) as usize;
        let vx: u8 = self.v_register[x];
        if sub == 0x07 {
            let t: u8 = self.delay_timer;
            self.v_register.set(x, t);
            self.pc = self.pc + 2;
            self.tone = false;
            Ok(())
        } else if sub == 0x0A {
            let mut j: usize = 0;
            while j < 16 && !self.key[j]
                invariant
                    self.wf(),
                    0 <= j <= 16,
                    forall|t: int| 0 <= t < j ==> !self@.keys[t],
                decreases 16 - j,
            {
                j += 1;
            }
            if j < 16 {
                proof {
                    lemma_first_key(self@.keys, j as int);
                }
                self.v_register.set(x, j as u8);
                self.pc = self.pc + 2;
                self.tone = false;
            } else {
                proof {
                    assert(!any_key_down(self@.keys));
                }
                self.tone = false;
            }
            Ok(())
        } else if sub == 0x15 {
            self.delay_timer = vx;
            self.pc = self.pc + 2;
            self.tone = false;
            Ok(())
        } else if sub == 0x18 {
            self.pc = self.pc + 2;
            self.tone = true;
            Ok(())
        } else if sub == 0x1E {
            let t: usize = self.i_register as usize + vx as usize;
            self.i_register = if t < 65536 {
                t as u16
            } else {
                (t - 65536) as u16
            };
            self.pc = self.pc + 2;
            self.tone = false;
            Ok(())
        } else if sub == 0x29 {
            self.i_register = vx as u16 * 5;
            self.pc = self.pc + 2;
            self.tone = false;
            Ok(())
        } else if sub == 0x33 {
            if self.i_register as usize + 3 > 4096 {
                return Err(Chip8Error::OutOfBounds);
            }
            let base: usize = self.i_register as usize;
            self.ram.set(base, vx / 100);
            self.ram.set(base + 1, (vx / 10) % 10);
            self.ram.set(base + 2, vx % 10);
            self.pc = self.pc + 2;
            self.tone = false;
            Ok(())
        } else if sub == 0x55 {
            if self.i_register as usize + x + 1 > 4096 {
                return Err(Chip8Error::OutOfBounds);
            }
            let base: usize = self.i_register as usize;
            let mut t: usize = 0;
            while t < x + 1
                invariant
                    old(self).wf(),
                    self.wf(),
                    x < 16,
                    base + x + 1 <= 4096,
                    base == old(self)@.i,
                    0 <= t <= x + 1,
                    self@ == (MachineView { ram: self@.ram, ..old(self)@ }),
                    forall|jj: int| base <= jj < base + t ==> self@.ram[jj] == old(self)@.v[jj
                        - base],
                    forall|jj: int| 0 <= jj < 4096 && !(base <= jj < base + t) ==> self@.ram[jj]
                        == old(self)@.ram[jj],
                decreases x + 1 - t,
            {
                let b: u8 = self.v_register[t];
                self.ram.set(base + t, b);
                t += 1;
            }
            proof {
                assert(self@.ram =~= store_regs(
                    old(self)@.ram, old(self)@.v, old(self)@.i as int, x as int));
            }
            self.i_register = (base + x + 1) as u16;
            self.pc = self.pc + 2;
            self.tone = false;
            Ok(())
        } else if sub == 0x65 {
            if self.i_register as usize + x + 1 > 4096 {
                return Err(Chip8Error::OutOfBounds);
            }
            let base: usize = self.i_register as usize;
            let mut t: usize = 0;
            while t < x + 1
                invariant
                    old(self).wf(),
                    self.wf(),
                    x < 16,
                    base + x + 1 <= 4096,
                    base == old(self)@.i,
                    0 <= t <= x + 1,
                    self@ == (MachineView { v: self@.v, ..old(self)@ }),
                    forall|jj: int| 0 <= jj < t ==> self@.v[jj] == old(self)@.ram[base + jj],
                    forall|jj: int| t <= jj < 16 ==> self@.v[jj] == old(self)@.v[jj],
                decreases x + 1 - t,
            {
                let b: u8 = self.ram[base + t];
                self.v_register.set(t, b);
                t += 1;
            }
            proof {
                assert(self@.v =~= load_regs(
                    old(self)@.v, old(self)@.ram, old(self)@.i as int, x as int));
            }
            self.pc = self.pc + 2;
            self.tone = false;
            Ok(())
        } else {
            Err(Chip8Error::InvalidInstruction { address: self.pc, raw: op })
        }
    }

    /// Decode and execute one 16-bit instruction against the machine,
    /// `rnd` standing for the byte the random source produced (read only
    /// by category 0xC). The outcome is exactly what the decode/execute
    /// relation prescribes: on success the machine becomes the prescribed
    /// one, on an error the machine is left unchanged.
    pub fn execute_opcode(&mut self, op: u16, rnd: u8) -> (r: Result<(), Chip8Error>)
        requires
            old(self).wf(),
            old(self)@.pc <= 4094,
        ensures
            final(self).wf(),
            obeys(r, old(self)@, final(self)@, spec_execute(old(self)@, op, rnd)),
    {
        let cat: u16 = op >> 12;
        if cat == 0 {
            self.execute_category_zero(op)
        } else if cat == 1 {
            self.execute_category_one(op)
        } else if cat == 2 {
            self.execute_category_two(op)
        } else if cat == 3 {
            self.execute_category_three(op)
        } else if cat == 4 {
            self.execute_category_four(op)
        } else if cat == 5 {
            self.execute_category_five(op)
        } else if cat == 6 {
            self.execute_category_six(op)
        } else if cat == 7 {
            self.execute_category_seven(op)
        } else if cat == 8 {
            self.execute_category_eight(op)
        } else if cat == 9 {
            self.execute_category_nine(op)
        } else if cat == 0xA {
            self.execute_category_a(op)
        } else if cat == 0xB {
            self.execute_category_b(op)
        } else if cat == 0xC {
            self.execute_category_c(op, rnd)
        } else if cat == 0xD {
            self.execute_category_d(op)
        } else if cat == 0xE {
            self.execute_category_e(op)
        } else {
            self.execute_category_f(op)
        }
    }

    /// Fetch the two instruction bytes at the program counter and execute
    /// them; a fetch that would read past the end of memory fails with
    /// OutOfBounds and leaves the machine unchanged. The random byte fed
    /// to category 0xC is drawn fresh, so the outcome is that of the
    /// decode/execute relation for some byte -- and for every instruction
    /// other than category 0xC, for all of them alike.
    pub fn emulate_cycle(&mut self) -> (r: Result<(), Chip8Error>)
        requires
            old(self).wf(),
        ensures
            final(self).wf(),
            old(self)@.pc > 4094 ==> r == Err::<(), Chip8Error>(Chip8Error::OutOfBounds)
                && final(self)@ == old(self)@,
            old(self)@.pc <= 4094 ==> exists|rnd: u8|
                obeys(r, old(self)@, final(self)@, #[trigger] spec_execute(
                    old(self)@, fetched_op(old(self)@), rnd)),
            old(self)@.pc <= 4094 && op_cat(fetched_op(old(self)@)) != 0xC ==> obeys(
                r, old(self)@, final(self)@, spec_execute(old(self)@, fetched_op(old(self)@), 0)),
    {
        if self.pc > 4094 {
            return Err(Chip8Error::OutOfBounds);
        }
        let hi: u8 = self.ram[self.pc as usize];
        let lo: u8 = self.ram[self.pc as usize + 1];
        let op: u16 = (hi as u16) * 256 + (lo as u16);
        let rnd: u8 = random_byte();
        let r = self.execute_opcode(op, rnd);
        proof {
            assert(op == fetched_op(old(self)@));
            assert(obeys(r, old(self)@, self@, spec_execute(old(self)@, op, rnd)));
            if op_cat(op) != 0xC {
                lemma_execute_rnd_irrelevant(old(self)@, op, rnd, 0);
            }
        }
        r
    }
}

} // verus!
