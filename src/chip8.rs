//! The executable machine.
use vstd::prelude::*;
use rand::Rng;
use crate::font::{digits, font, FONT_LEN};
use vstd::arithmetic::div_mod::{lemma_fundamental_div_mod, lemma_fundamental_div_mod_converse};
use crate::laws::lemma_step_invariants;
use crate::machine::{
    alu_spec, bcd_spec, collides, draw_spec, drawn, exec_op, fetch, first_held, jumps_to_odd,
    load_regs_spec, misc_spec, realizes, sprite_pixel, steps_to, store_spec, timers_spec, visited,
    wait_key_spec, LoadError, Machine, TickError, MAX_PROGRAM_LEN, PROGRAM_START,
};

verus! {

/// Relies on `rand::thread_rng().gen::<u8>()`: a byte drawn from the
/// thread-local generator. Nothing is promised of its value.
#[verifier::external_body]
fn random_byte() -> (r: u8) {
    rand::thread_rng().gen::<u8>()
}

/// A CHIP-8 machine. The host reads `gfx` when `draw_flag` is set and clears
/// the flag, writes `key` between ticks, and clears `beep_flag` after sounding.
pub struct Chip8 {
    memory: [u8; 4096],
    v: [u8; 16],
    i: u16,
    pc: u16,
    /// Framebuffer, 64 x 32 cells of 0 or 1, row-major.
    pub gfx: [u8; 2048],
    delay_timer: u8,
    sound_timer: u8,
    stack: [u16; 16],
    sp: usize,
    /// Held state of keys 0x0..=0xF.
    pub key: [bool; 16],
    /// Set by a draw; the host clears it after presenting `gfx`.
    pub draw_flag: bool,
    /// Set when the sound timer runs out; the host clears it after sounding.
    pub beep_flag: bool,
}

impl View for Chip8 {
    type V = Machine;

    closed spec fn view(&self) -> Machine {
        Machine {
            mem: self.memory@,
            v: self.v@,
            i: self.i as int,
            pc: self.pc as int,
            stack: self.stack@,
            sp: self.sp as int,
            dt: self.delay_timer,
            st: self.sound_timer,
            gfx: self.gfx@,
            key: self.key@,
            draw: self.draw_flag,
            beep: self.beep_flag,
        }
    }
}

impl Chip8 {
    /// The machine's invariant: its model is well formed.
    pub open spec fn wf(&self) -> bool {
        self@.wf()
    }

    /// A machine with every part zeroed and the program counter at the
    /// program origin.
    pub fn new() -> (r: Self)
        ensures
            r.wf(),
            r@.pc == 0x200,
            r@.sp == 0,
            r@.i == 0,
            r@.dt == 0,
            r@.st == 0,
            !r@.draw,
            !r@.beep,
            forall|a: int| 0 <= a < 4096 ==> #[trigger] r@.mem[a] == 0,
            forall|j: int| 0 <= j < 16 ==> #[trigger] r@.v[j] == 0,
            forall|j: int| 0 <= j < 16 ==> #[trigger] r@.stack[j] == 0,
            forall|j: int| 0 <= j < 16 ==> !#[trigger] r@.key[j],
            forall|p: int| 0 <= p < 2048 ==> #[trigger] r@.gfx[p] == 0,
    {
        Chip8 {
            memory: [0u8; 4096],
            v: [0u8; 16],
            i: 0,
            pc: 0x200,
            gfx: [0u8; 2048],
            delay_timer: 0,
            sound_timer: 0,
            stack: [0u16; 16],
            sp: 0,
            key: [false; 16],
            draw_flag: false,
            beep_flag: false,
        }
    }

    /// Copies the font to address 0 and `program` to the program origin.
    /// Fails, changing nothing, when the program does not fit.
    pub fn load(&mut self, program: &[u8]) -> (r: Result<(), LoadError>)
        requires
            old(self).wf(),
        ensures
            final(self).wf(),
            program@.len() > MAX_PROGRAM_LEN <==> r == Err::<(), LoadError>(LoadError::RomTooLarge),
            r is Err ==> final(self)@ == old(self)@,
            r is Ok ==> final(self)@ == (Machine { mem: loaded(old(self)@.mem, program@), ..old(self)@ }),
    {
        if program.len() > MAX_PROGRAM_LEN {
            return Err(LoadError::RomTooLarge);
        }
        let ghost m0 = self@;
        let font_bytes = digits();
        let mut k: usize = 0;
        while k < FONT_LEN
            invariant
                0 <= k <= 80,
                font_bytes@ == font(),
                self@ == (Machine { mem: self@.mem, ..m0 }),
                self@.mem.len() == 4096,
                forall|a: int| 0 <= a < 4096 ==> #[trigger] self@.mem[a] == if a < k { font()[a] } else { m0.mem[a] },
            decreases 80 - k,
        {
            self.memory[k] = font_bytes[k];
            k = k + 1;
        }
        let mut j: usize = 0;
        while j < program.len()
            invariant
                0 <= j <= program@.len() <= 3584,
                self@ == (Machine { mem: self@.mem, ..m0 }),
                self@.mem.len() == 4096,
                forall|a: int|
                    0 <= a < 4096 ==> #[trigger] self@.mem[a] == if a < 80 {
                        font()[a]
                    } else if 512 <= a < 512 + j {
                        program@[a - 512]
                    } else {
                        m0.mem[a]
                    },
            decreases program@.len() - j,
        {
            self.memory[PROGRAM_START + j] = program[j];
            j = j + 1;
        }
        assert(self@.mem =~= loaded(m0.mem, program@));
        Ok(())
    }

    /// The program counter.
    pub fn pc(&self) -> (r: u16)
        ensures
            r as int == self@.pc,
    {
        self.pc
    }

    /// The stack pointer: the number of saved return addresses.
    pub fn sp(&self) -> (r: usize)
        ensures
            r as int == self@.sp,
    {
        self.sp
    }

    /// The index register `I`.
    pub fn index(&self) -> (r: u16)
        ensures
            r as int == self@.i,
    {
        self.i
    }

    /// Register `Vx`.
    pub fn register(&self, x: usize) -> (r: u8)
        requires
            x < 16,
        ensures
            r == self@.v[x as int],
    {
        self.v[x]
    }

    /// The byte at address `addr`.
    pub fn memory_at(&self, addr: usize) -> (r: u8)
        requires
            addr < 4096,
        ensures
            r == self@.mem[addr as int],
    {
        self.memory[addr]
    }

    /// The delay timer.
    pub fn delay_timer(&self) -> (r: u8)
        ensures
            r == self@.dt,
    {
        self.delay_timer
    }

    /// The sound timer.
    pub fn sound_timer(&self) -> (r: u8)
        ensures
            r == self@.st,
    {
        self.sound_timer
    }
}

impl Chip8 {
    /// `00E0`: turns every pixel off.
    fn clear_screen(&mut self)
        requires
            old(self).wf(),
        ensures
            final(self)@ == (Machine { gfx: Seq::new(2048, |p: int| 0u8), ..old(self)@ }),
    {
        let ghost m0 = self@;
        let mut p: usize = 0;
        while p < 2048
            invariant
                p <= 2048,
                self@ == (Machine { gfx: self@.gfx, ..m0 }),
                self@.gfx.len() == 2048,
                forall|q: int| 0 <= q < p ==> #[trigger] self@.gfx[q] == 0u8,
            decreases 2048 - p,
        {
            self.gfx[p] = 0;
            p = p + 1;
        }
        assert(self@.gfx =~= Seq::new(2048, |q: int| 0u8));
    }

    /// `Fx0A`: the lowest held key into `Vx`, or back to this instruction.
    fn wait_key(&mut self, x: usize)
        requires
            old(self).wf(),
            x < 16,
        ensures
            final(self)@ == wait_key_spec(old(self)@, x as int),
    {
        let ghost m0 = self@;
        let mut k: usize = 0;
        while k < 16
            invariant
                k <= 16,
                x < 16,
                m0 == old(self)@,
                m0.wf(),
                self@ == m0,
                first_held(m0.key, 0) == first_held(m0.key, k as int),
            decreases 16 - k,
        {
            if self.key[k] {
                assert(first_held(m0.key, k as int) == k);
                self.v[x] = k as u8;
                return;
            }
            k = k + 1;
        }
        self.pc = (self.pc + 4094) % 4096;
    }

    /// `Fx33`: the decimal digits of `Vx` at `I`, `I + 1`, `I + 2`.
    fn store_bcd(&mut self, x: usize)
        requires
            old(self).wf(),
            x < 16,
        ensures
            final(self)@ == bcd_spec(old(self)@, x as int),
    {
        let b = self.v[x];
        let i = self.i as usize;
        self.memory[i] = b / 100;
        self.memory[(i + 1) % 4096] = (b % 100) / 10;
        self.memory[(i + 2) % 4096] = b % 10;
    }

    /// `Fx55`: `V0..=Vx` into memory from `I` on.
    fn store_regs(&mut self, x: usize)
        requires
            old(self).wf(),
            x < 16,
        ensures
            final(self)@ == store_spec(old(self)@, x as int),
    {
        let ghost m0 = self@;
        let i = self.i as usize;
        let mut j: usize = 0;
        while j <= x
            invariant
                j <= x + 1,
                x < 16,
                i == m0.i,
                0 <= i < 4096,
                self@ == (Machine { mem: self@.mem, ..m0 }),
                self@.mem.len() == 4096,
                forall|a: int|
                    0 <= a < 4096 ==> #[trigger] self@.mem[a] == if (a - i) % 4096 < j {
                        m0.v[(a - i) % 4096]
                    } else {
                        m0.mem[a]
                    },
            decreases x + 1 - j,
        {
            let addr = (i + j) % 4096;
            self.memory[addr] = self.v[j];
            assert forall|a: int| 0 <= a < 4096 implies #[trigger] self@.mem[a] == if (a - i) % 4096
                < j + 1 {
                m0.v[(a - i) % 4096]
            } else {
                m0.mem[a]
            } by {
                lemma_offset(a, i as int, j as int);
            }
            j = j + 1;
        }
        assert(self@.mem =~= store_spec(m0, x as int).mem);
    }

    /// `Fx65`: `V0..=Vx` from memory from `I` on.
    fn load_regs(&mut self, x: usize)
        requires
            old(self).wf(),
            x < 16,
        ensures
            final(self)@ == load_regs_spec(old(self)@, x as int),
    {
        let ghost m0 = self@;
        let i = self.i as usize;
        let mut j: usize = 0;
        while j <= x
            invariant
                j <= x + 1,
                x < 16,
                i == m0.i,
                0 <= i < 4096,
                self@ == (Machine { v: self@.v, ..m0 }),
                self@.v.len() == 16,
                forall|k: int|
                    0 <= k < 16 ==> #[trigger] self@.v[k] == if k < j {
                        m0.mem[(i + k) % 4096]
                    } else {
                        m0.v[k]
                    },
            decreases x + 1 - j,
        {
            self.v[j] = self.memory[(i + j) % 4096];
            j = j + 1;
        }
        assert(self@.v =~= load_regs_spec(m0, x as int).v);
    }

    /// `Dxyn`: XOR-draws `n` rows from `I` at `(Vx mod 64, Vy mod 32)`, VF
    /// reporting whether a lit pixel was turned off.
    fn draw_sprite(&mut self, x: usize, y: usize, n: usize)
        requires
            old(self).wf(),
            x < 16,
            y < 16,
            n < 16,
        ensures
            final(self)@ == draw_spec(old(self)@, x as int, y as int, n as int),
    {
        let ghost m0 = self@;
        let col: usize = (self.v[x] % 64) as usize;
        let row: usize = (self.v[y] % 32) as usize;
        let i: usize = self.i as usize;
        let ghost c = col as int;
        let ghost w = row as int;
        let mut collision = false;
        let mut r: usize = 0;
        while r < n
            invariant
                r <= n < 16,
                col < 64,
                row < 32,
                c == col,
                w == row,
                i == m0.i,
                m0.wf(),
                self@ == (Machine { gfx: self@.gfx, ..m0 }),
                self@.gfx.len() == 2048,
                forall|p: int|
                    0 <= p < 2048 ==> #[trigger] self@.gfx[p] == if visited(p, c, w, n as int, r as int, 0) {
                        m0.gfx[p] ^ sprite_pixel(m0.mem, m0.i, c, w, n as int, p)
                    } else {
                        m0.gfx[p]
                    },
                collision <==> exists|p: int|
                    0 <= p < 2048 && visited(p, c, w, n as int, r as int, 0) && #[trigger] sprite_pixel(
                        m0.mem,
                        m0.i,
                        c,
                        w,
                        n as int,
                        p,
                    ) == 1 && m0.gfx[p] == 1,
            decreases n - r,
        {
            let py = (row + r) % 32;
            let line = self.memory[(i + r) % 4096];
            let mut b: usize = 0;
            while b < 8
                invariant
                    r < n < 16,
                    b <= 8,
                    col < 64,
                    row < 32,
                    c == col,
                    w == row,
                    i == m0.i,
                    py == (row + r) % 32,
                    line == m0.mem[(i + r) % 4096],
                    m0.wf(),
                    self@ == (Machine { gfx: self@.gfx, ..m0 }),
                    self@.gfx.len() == 2048,
                    forall|p: int|
                        0 <= p < 2048 ==> #[trigger] self@.gfx[p] == if visited(p, c, w, n as int, r as int, b as int) {
                            m0.gfx[p] ^ sprite_pixel(m0.mem, m0.i, c, w, n as int, p)
                        } else {
                            m0.gfx[p]
                        },
                    collision <==> exists|p: int|
                        0 <= p < 2048 && visited(p, c, w, n as int, r as int, b as int)
                            && #[trigger] sprite_pixel(m0.mem, m0.i, c, w, n as int, p) == 1 && m0.gfx[p] == 1,
                decreases 8 - b,
            {
                let px = (col + b) % 64;
                let idx = py * 64 + px;
                let bit = (line >> ((7 - b) as u8)) & 1;
                proof {
                    lemma_cell(c, w, r as int, b as int, 0);
                    assert(sprite_pixel(m0.mem, m0.i, c, w, n as int, idx as int) == bit);
                    assert(!visited(idx as int, c, w, n as int, r as int, b as int));
                }
                let ghost before = self@.gfx;
                let old_cell = self.gfx[idx];
                if bit == 1 && old_cell == 1 {
                    collision = true;
                }
                self.gfx[idx] = old_cell ^ bit;
                proof {
                    assert forall|p: int| 0 <= p < 2048 && p != idx implies visited(p, c, w, n as int, r as int, b + 1)
                        == visited(p, c, w, n as int, r as int, b as int) by {
                        lemma_cell(c, w, r as int, b as int, p);
                    }
                    assert(visited(idx as int, c, w, n as int, r as int, b + 1));
                    if collision {
                        if !(bit == 1 && old_cell == 1) {
                            let q = choose|q: int|
                                0 <= q < 2048 && visited(q, c, w, n as int, r as int, b as int)
                                    && #[trigger] sprite_pixel(m0.mem, m0.i, c, w, n as int, q) == 1
                                    && m0.gfx[q] == 1;
                            lemma_cell(c, w, r as int, b as int, q);
                            assert(visited(q, c, w, n as int, r as int, b + 1));
                        } else {
                            assert(before[idx as int] == m0.gfx[idx as int]);
                        }
                    } else {
                        assert forall|q: int|
                            0 <= q < 2048 && visited(q, c, w, n as int, r as int, b + 1) implies !(
                            #[trigger] sprite_pixel(m0.mem, m0.i, c, w, n as int, q) == 1 && m0.gfx[q] == 1) by {
                            lemma_cell(c, w, r as int, b as int, q);
                            if q == idx {
                                assert(before[idx as int] == m0.gfx[idx as int]);
                            }
                        }
                    }
                }
                b = b + 1;
            }
            proof {
                assert forall|p: int| 0 <= p < 2048 implies visited(p, c, w, n as int, r as int, 8)
                    == visited(p, c, w, n as int, r + 1, 0) by {}
            }
            r = r + 1;
        }
        self.v[15] = if collision { 1 } else { 0 };
        self.draw_flag = true;
        proof {
            assert forall|p: int| 0 <= p < 2048 implies #[trigger] self@.gfx[p] == drawn(
                m0.gfx,
                m0.mem,
                m0.i,
                c,
                w,
                n as int,
            )[p] by {
                let g = m0.gfx[p];
                assert(g ^ 0u8 == g) by (bit_vector);
            }
            assert(self@.gfx =~= drawn(m0.gfx, m0.mem, m0.i, c, w, n as int));
            assert(collision == collides(m0.gfx, m0.mem, m0.i, c, w, n as int));
        }
    }

    /// The register instructions `8xyn`.
    fn exec_alu(&mut self, op: u16) -> (r: Result<(), TickError>)
        requires
            old(self).wf(),
        ensures
            realizes(alu_spec(old(self)@, op), old(self)@, final(self)@, r),
    {
        proof {
            lemma_decode(op);
        }
        let x = ((op >> 8) & 0xF) as usize;
        let y = ((op >> 4) & 0xF) as usize;
        let n4 = op & 0xF;
        let vx = self.v[x];
        let vy = self.v[y];
        if n4 == 0 {
            self.v[x] = vy;
        } else if n4 == 1 {
            self.v[x] = vx | vy;
        } else if n4 == 2 {
            self.v[x] = vx & vy;
        } else if n4 == 3 {
            self.v[x] = vx ^ vy;
        } else if n4 == 4 {
            let sum: u16 = vx as u16 + vy as u16;
            self.v[x] = (sum % 256) as u8;
            self.v[15] = if sum > 255 { 1 } else { 0 };
        } else if n4 == 5 {
            self.v[x] = ((vx as u16 + 256 - vy as u16) % 256) as u8;
            self.v[15] = if vx >= vy { 1 } else { 0 };
        } else if n4 == 6 {
            self.v[15] = vx & 1;
            self.v[x] = self.v[x] >> 1;
        } else if n4 == 7 {
            self.v[x] = ((vy as u16 + 256 - vx as u16) % 256) as u8;
            self.v[15] = if vy >= vx { 1 } else { 0 };
        } else if n4 == 0xE {
            self.v[15] = (vx >> 7) & 1;
            self.v[x] = ((self.v[x] as u16 * 2) % 256) as u8;
        } else {
            return Err(TickError::UnknownOpcode(op));
        }
        Ok(())
    }

    /// The `Fxkk` instructions.
    fn exec_misc(&mut self, op: u16) -> (r: Result<(), TickError>)
        requires
            old(self).wf(),
        ensures
            realizes(misc_spec(old(self)@, op), old(self)@, final(self)@, r),
            final(self).wf(),
    {
        proof {
            lemma_decode(op);
        }
        let x = ((op >> 8) & 0xF) as usize;
        let kk = (op & 0xFF) as u8;
        if kk == 0x07 {
            self.v[x] = self.delay_timer;
        } else if kk == 0x0A {
            self.wait_key(x);
        } else if kk == 0x15 {
            self.delay_timer = self.v[x];
        } else if kk == 0x18 {
            self.sound_timer = self.v[x];
        } else if kk == 0x1E {
            self.i = (self.i + self.v[x] as u16) % 4096;
        } else if kk == 0x29 {
            self.i = 5 * (self.v[x] % 16) as u16;
        } else if kk == 0x33 {
            self.store_bcd(x);
        } else if kk == 0x55 {
            self.store_regs(x);
        } else if kk == 0x65 {
            self.load_regs(x);
        } else {
            return Err(TickError::UnknownOpcode(op));
        }
        Ok(())
    }

    /// Carries out instruction `op`, the program counter already past it;
    /// `rnd` is the random byte that `Cxkk` masks.
    fn execute(&mut self, op: u16, rnd: u8) -> (r: Result<(), TickError>)
        requires
            old(self).wf(),
        ensures
            realizes(exec_op(old(self)@, op, rnd), old(self)@, final(self)@, r),
            final(self).wf(),
    {
        proof {
            lemma_decode(op);
        }
        let n1 = op >> 12;
        let x = ((op >> 8) & 0xF) as usize;
        let y = ((op >> 4) & 0xF) as usize;
        let n4 = op & 0xF;
        let kk = (op & 0xFF) as u8;
        let nnn = op & 0x0FFF;
        if op == 0x0000 {
        } else if op == 0x00E0 {
            self.clear_screen();
        } else if op == 0x00EE {
            if self.sp == 0 {
                return Err(TickError::StackUnderflow);
            }
            self.sp = self.sp - 1;
            self.pc = self.stack[self.sp];
        } else if n1 == 1 {
            self.pc = nnn;
        } else if n1 == 2 {
            if self.sp >= 16 {
                return Err(TickError::StackOverflow);
            }
            self.stack[self.sp] = self.pc;
            self.sp = self.sp + 1;
            self.pc = nnn;
        } else if n1 == 3 {
            if self.v[x] == kk {
                self.pc = (self.pc + 2) % 4096;
            }
        } else if n1 == 4 {
            if self.v[x] != kk {
                self.pc = (self.pc + 2) % 4096;
            }
        } else if n1 == 5 && n4 == 0 {
            if self.v[x] == self.v[y] {
                self.pc = (self.pc + 2) % 4096;
            }
        } else if n1 == 6 {
            self.v[x] = kk;
        } else if n1 == 7 {
            self.v[x] = ((self.v[x] as u16 + kk as u16) % 256) as u8;
        } else if n1 == 8 {
            return self.exec_alu(op);
        } else if n1 == 9 && n4 == 0 {
            if self.v[x] != self.v[y] {
                self.pc = (self.pc + 2) % 4096;
            }
        } else if n1 == 0xA {
            self.i = nnn;
        } else if n1 == 0xB {
            self.pc = (nnn + self.v[0] as u16) % 4096;
        } else if n1 == 0xC {
            self.v[x] = rnd & kk;
        } else if n1 == 0xD {
            self.draw_sprite(x, y, n4 as usize);
        } else if n1 == 0xE && kk == 0x9E {
            if self.key[(self.v[x] % 16) as usize] {
                self.pc = (self.pc + 2) % 4096;
            }
        } else if n1 == 0xE && kk == 0xA1 {
            if !self.key[(self.v[x] % 16) as usize] {
                self.pc = (self.pc + 2) % 4096;
            }
        } else if n1 == 0xF {
            return self.exec_misc(op);
        } else {
            return Err(TickError::UnknownOpcode(op));
        }
        Ok(())
    }

    /// One step of the machine with `rnd` as the random byte: fetch the
    /// instruction at the program counter, advance the counter, execute, and
    /// tick the timers. On an error the machine is left unchanged.
    pub fn step(&mut self, rnd: u8) -> (r: Result<(), TickError>)
        requires
            old(self).wf(),
        ensures
            final(self).wf(),
            steps_to(old(self)@, rnd, final(self)@, r),
            old(self)@.screen_is_binary() ==> final(self)@.screen_is_binary(),
            old(self)@.aligned() && !jumps_to_odd(old(self)@, fetch(old(self)@)) ==> final(self)@.aligned(),
    {
        proof {
            lemma_step_invariants(self@, rnd);
        }
        let pc = self.pc;
        let op: u16 = ((self.memory[pc as usize] as u16) << 8) | (self.memory[((pc + 1) % 4096) as usize] as u16);
        self.pc = (pc + 2) % 4096;
        match self.execute(op, rnd) {
            Ok(()) => {
                self.update_timers();
                Ok(())
            },
            Err(e) => {
                self.pc = pc;
                Err(e)
            },
        }
    }

    /// One step of the machine, drawing the random byte for `Cxkk` from the
    /// thread-local generator.
    pub fn tick(&mut self) -> (r: Result<(), TickError>)
        requires
            old(self).wf(),
        ensures
            final(self).wf(),
            exists|rnd: u8| steps_to(old(self)@, rnd, final(self)@, r),
            old(self)@.screen_is_binary() ==> final(self)@.screen_is_binary(),
            old(self)@.aligned() && !jumps_to_odd(old(self)@, fetch(old(self)@)) ==> final(self)@.aligned(),
    {
        let rnd = random_byte();
        self.step(rnd)
    }

    /// One timer tick.
    fn update_timers(&mut self)
        ensures
            final(self)@ == timers_spec(old(self)@),
    {
        if self.delay_timer > 0 {
            self.delay_timer = self.delay_timer - 1;
        }
        if self.sound_timer > 0 {
            if self.sound_timer == 1 {
                self.beep_flag = true;
            }
            self.sound_timer = self.sound_timer - 1;
        }
    }
}

/// The fields of an instruction word are in range.
pub(crate) proof fn lemma_decode(op: u16)
    ensures
        op >> 12u16 <= 15,
        (op >> 8u16) & 0xFu16 <= 15,
        (op >> 4u16) & 0xFu16 <= 15,
        op & 0xFu16 <= 15,
        op & 0x0FFFu16 <= 0xFFF,
        op >> 12u16 != 0 ==> op != 0x0000u16 && op != 0x00E0u16 && op != 0x00EEu16,
{
    assert(op >> 12u16 != 0 ==> op != 0x0000u16 && op != 0x00E0u16 && op != 0x00EEu16) by (bit_vector);
    assert(op >> 12u16 <= 15) by (bit_vector);
    assert((op >> 8u16) & 0xFu16 <= 15) by (bit_vector);
    assert((op >> 4u16) & 0xFu16 <= 15) by (bit_vector);
    assert(op & 0xFu16 <= 15) by (bit_vector);
    assert(op & 0x0FFFu16 <= 0xFFF) by (bit_vector);
}

/// Address `a` is `j` bytes past `i`, counting modulo the memory size.
pub(crate) proof fn lemma_offset(a: int, i: int, j: int)
    requires
        0 <= a < 4096,
        0 <= i < 4096,
        0 <= j < 4096,
    ensures
        ((a - i) % 4096 == j) <==> (a == (i + j) % 4096),
{
    if a >= i {
        lemma_fundamental_div_mod_converse(a - i, 4096, 0, a - i);
    } else {
        lemma_fundamental_div_mod_converse(a - i, 4096, -1, a - i + 4096);
    }
    if i + j >= 4096 {
        lemma_fundamental_div_mod_converse(i + j, 4096, 1, i + j - 4096);
    } else {
        lemma_fundamental_div_mod_converse(i + j, 4096, 0, i + j);
    }
}

/// The cell that row `r`, column `b` of a sprite at `(col, row)` covers, and
/// that no other cell has those sprite coordinates.
proof fn lemma_cell(col: int, row: int, r: int, b: int, p: int)
    requires
        0 <= col < 64,
        0 <= row < 32,
        0 <= r < 16,
        0 <= b < 8,
        0 <= p < 2048,
    ensures
        0 <= ((row + r) % 32) * 64 + (col + b) % 64 < 2048,
        ((((row + r) % 32) * 64 + (col + b) % 64) / 64 - row) % 32 == r,
        ((((row + r) % 32) * 64 + (col + b) % 64) % 64 - col) % 64 == b,
        ((p / 64 - row) % 32 == r && (p % 64 - col) % 64 == b) ==> p == ((row + r) % 32) * 64 + (col
            + b) % 64,
{
    let py = (row + r) % 32;
    let px = (col + b) % 64;
    if row + r >= 32 {
        lemma_fundamental_div_mod_converse(row + r, 32, 1, row + r - 32);
    } else {
        lemma_fundamental_div_mod_converse(row + r, 32, 0, row + r);
    }
    if col + b >= 64 {
        lemma_fundamental_div_mod_converse(col + b, 64, 1, col + b - 64);
    } else {
        lemma_fundamental_div_mod_converse(col + b, 64, 0, col + b);
    }
    lemma_fundamental_div_mod_converse(py * 64 + px, 64, py, px);
    lemma_fundamental_div_mod(p, 64);
    let qy = p / 64;
    let qx = p % 64;
    assert(0 <= qx < 64);
    assert(0 <= qy < 32) by (nonlinear_arith)
        requires p == 64 * qy + qx, 0 <= qx < 64, 0 <= p < 2048;
    if py >= row {
        lemma_fundamental_div_mod_converse(py - row, 32, 0, py - row);
    } else {
        lemma_fundamental_div_mod_converse(py - row, 32, -1, py - row + 32);
    }
    if px >= col {
        lemma_fundamental_div_mod_converse(px - col, 64, 0, px - col);
    } else {
        lemma_fundamental_div_mod_converse(px - col, 64, -1, px - col + 64);
    }
    if qy >= row {
        lemma_fundamental_div_mod_converse(qy - row, 32, 0, qy - row);
    } else {
        lemma_fundamental_div_mod_converse(qy - row, 32, -1, qy - row + 32);
    }
    if qx >= col {
        lemma_fundamental_div_mod_converse(qx - col, 64, 0, qx - col);
    } else {
        lemma_fundamental_div_mod_converse(qx - col, 64, -1, qx - col + 64);
    }
}

/// Memory after loading: the font at 0, the program at the program origin,
/// the rest as it was.
pub open spec fn loaded(mem: Seq<u8>, program: Seq<u8>) -> Seq<u8> {
    Seq::new(
        mem.len(),
        |a: int|
            if a < 80 {
                font()[a]
            } else if 512 <= a < 512 + program.len() {
                program[a - 512]
            } else {
                mem[a]
            },
    )
}

} // verus!
