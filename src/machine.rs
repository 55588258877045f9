//! The mathematical model of the machine and the meaning of every instruction.
use vstd::prelude::*;

verus! {

/// Address at which programs are loaded and execution starts.
pub const PROGRAM_START: usize = 0x200;

/// Largest program that fits between the program origin and the end of memory.
pub const MAX_PROGRAM_LEN: usize = 3584;

/// Display width in pixels.
pub const WIDTH: usize = 64;

/// Display height in pixels.
pub const HEIGHT: usize = 32;

/// Why a step of the machine could not be carried out. The machine is left as
/// it was before the step.
#[derive(Debug, Clone, Copy, PartialEq, Eq, Structural)]
pub enum TickError {
    /// The fetched 16-bit word is not an instruction.
    UnknownOpcode(u16),
    /// A call was made with all sixteen stack slots in use.
    StackOverflow,
    /// A return was made with an empty stack.
    StackUnderflow,
}

/// Why a program could not be loaded.
#[derive(Debug, Clone, Copy, PartialEq, Eq, Structural)]
pub enum LoadError {
    /// The program is longer than the memory above the program origin.
    RomTooLarge,
}

/// The state of the machine as mathematical values.
pub struct Machine {
    pub mem: Seq<u8>,
    pub v: Seq<u8>,
    pub i: int,
    pub pc: int,
    pub stack: Seq<u16>,
    pub sp: int,
    pub dt: u8,
    pub st: u8,
    pub gfx: Seq<u8>,
    pub key: Seq<bool>,
    pub draw: bool,
    pub beep: bool,
}

impl Machine {
    /// Sizes of the parts and the ranges of the address registers.
    pub open spec fn wf(self) -> bool {
        &&& self.mem.len() == 4096
        &&& self.v.len() == 16
        &&& self.stack.len() == 16
        &&& self.gfx.len() == 2048
        &&& self.key.len() == 16
        &&& 0 <= self.i < 4096
        &&& 0 <= self.pc < 4096
        &&& 0 <= self.sp <= 16
        &&& forall|j: int| 0 <= j < 16 ==> #[trigger] self.stack[j] < 4096
    }

    /// Every framebuffer cell holds 0 or 1.
    pub open spec fn screen_is_binary(self) -> bool {
        forall|p: int| 0 <= p < self.gfx.len() ==> #[trigger] self.gfx[p] <= 1
    }

    /// The program counter and every saved return address are even.
    pub open spec fn aligned(self) -> bool {
        &&& self.pc % 2 == 0
        &&& forall|j: int| 0 <= j < self.sp ==> #[trigger] self.stack[j] % 2 == 0
    }
}

/// The instruction word at the program counter, big-endian.
pub open spec fn fetch(m: Machine) -> u16 {
    ((m.mem[m.pc] as u16) << 8u16) | (m.mem[(m.pc + 1) % 4096] as u16)
}

/// Register index in bits 8..12 of an instruction.
pub open spec fn op_x(op: u16) -> int {
    ((op >> 8u16) & 0xFu16) as int
}

/// Register index in bits 4..8 of an instruction.
pub open spec fn op_y(op: u16) -> int {
    ((op >> 4u16) & 0xFu16) as int
}

/// The twelve-bit address of an instruction.
pub open spec fn op_nnn(op: u16) -> int {
    (op & 0x0FFFu16) as int
}

/// The low byte of an instruction.
pub open spec fn op_kk(op: u16) -> u8 {
    (op & 0x00FFu16) as u8
}

/// An instruction that jumps to an odd address: `1nnn` or `2nnn` with odd
/// `nnn`, or `Bnnn` with `nnn + V0` odd.
pub open spec fn jumps_to_odd(m: Machine, op: u16) -> bool {
    let n1 = op >> 12u16;
    ||| (n1 == 1 || n1 == 2) && op_nnn(op) % 2 == 1
    ||| n1 == 0xB && (op_nnn(op) + m.v[0]) % 2 == 1
}

/// `m` with `b` in register `Vx`.
pub open spec fn set_v(m: Machine, x: int, b: u8) -> Machine {
    Machine { v: m.v.update(x, b), ..m }
}

/// Skips the next instruction when `c` holds.
pub open spec fn skip_if(m: Machine, c: bool) -> Machine {
    if c {
        Machine { pc: (m.pc + 2) % 4096, ..m }
    } else {
        m
    }
}

/// Pixel `p` of a sprite of `n` rows read from memory at `i`, drawn with its
/// top left corner at column `col` and row `row`, wrapping on both axes:
/// 1 where the sprite has a set bit over `p`, else 0.
pub open spec fn sprite_pixel(mem: Seq<u8>, i: int, col: int, row: int, n: int, p: int) -> u8 {
    let r = (p / 64 - row) % 32;
    let b = (p % 64 - col) % 64;
    if r < n && b < 8 {
        (mem[(i + r) % 4096] >> ((7 - b) as u8)) & 1u8
    } else {
        0
    }
}

/// The framebuffer after XOR-drawing that sprite.
pub open spec fn drawn(gfx: Seq<u8>, mem: Seq<u8>, i: int, col: int, row: int, n: int) -> Seq<u8> {
    Seq::new(gfx.len(), |p: int| gfx[p] ^ sprite_pixel(mem, i, col, row, n, p))
}

/// Drawing that sprite turns off a lit pixel.
pub open spec fn collides(gfx: Seq<u8>, mem: Seq<u8>, i: int, col: int, row: int, n: int) -> bool {
    exists|p: int| 0 <= p < gfx.len() && #[trigger] sprite_pixel(mem, i, col, row, n, p) == 1 && gfx[p] == 1
}

/// `Dxyn`: draws `n` rows from `I` at `(Vx mod 64, Vy mod 32)`; VF reports a
/// collision.
pub open spec fn draw_spec(m: Machine, x: int, y: int, n: int) -> Machine {
    let col = m.v[x] % 64;
    let row = m.v[y] % 32;
    Machine {
        gfx: drawn(m.gfx, m.mem, m.i, col as int, row as int, n),
        v: m.v.update(15, if collides(m.gfx, m.mem, m.i, col as int, row as int, n) { 1u8 } else { 0u8 }),
        draw: true,
        ..m
    }
}

/// The lowest held key at or above `from`, or 16 where none is.
pub open spec fn first_held(key: Seq<bool>, from: int) -> int
    decreases 16 - from,
{
    if from >= 16 {
        16
    } else if key[from] {
        from
    } else {
        first_held(key, from + 1)
    }
}

/// `Fx0A`: stores the lowest held key in `Vx`, or steps back to this
/// instruction so that it runs again.
pub open spec fn wait_key_spec(m: Machine, x: int) -> Machine {
    let k = first_held(m.key, 0);
    if k < 16 {
        set_v(m, x, k as u8)
    } else {
        Machine { pc: (m.pc + 4094) % 4096, ..m }
    }
}

/// `Fx33`: hundreds, tens and ones of `Vx` at `I`, `I + 1`, `I + 2`.
pub open spec fn bcd_spec(m: Machine, x: int) -> Machine {
    let b = m.v[x];
    Machine {
        mem: m.mem.update(m.i, b / 100).update((m.i + 1) % 4096, (b % 100) / 10).update(
            (m.i + 2) % 4096,
            b % 10,
        ),
        ..m
    }
}

/// `Fx55`: `V0..=Vx` into memory from `I` on.
pub open spec fn store_spec(m: Machine, x: int) -> Machine {
    Machine {
        mem: Seq::new(
            m.mem.len(),
            |a: int|
                if (a - m.i) % 4096 <= x {
                    m.v[(a - m.i) % 4096]
                } else {
                    m.mem[a]
                },
        ),
        ..m
    }
}

/// `Fx65`: `V0..=Vx` from memory from `I` on.
pub open spec fn load_regs_spec(m: Machine, x: int) -> Machine {
    Machine {
        v: Seq::new(m.v.len(), |j: int| if j <= x { m.mem[(m.i + j) % 4096] } else { m.v[j] }),
        ..m
    }
}

/// The register instructions `8xyn`.
pub open spec fn alu_spec(m: Machine, op: u16) -> Result<Machine, TickError> {
    let x = op_x(op);
    let vx = m.v[x];
    let vy = m.v[op_y(op)];
    let n4 = op & 0xFu16;
    if n4 == 0 {
        Ok(set_v(m, x, vy))
    } else if n4 == 1 {
        Ok(set_v(m, x, vx | vy))
    } else if n4 == 2 {
        Ok(set_v(m, x, vx & vy))
    } else if n4 == 3 {
        Ok(set_v(m, x, vx ^ vy))
    } else if n4 == 4 {
        Ok(set_v(set_v(m, x, ((vx + vy) % 256) as u8), 15, if vx + vy > 255 { 1u8 } else { 0u8 }))
    } else if n4 == 5 {
        Ok(set_v(set_v(m, x, ((vx - vy + 256) % 256) as u8), 15, if vx >= vy { 1u8 } else { 0u8 }))
    } else if n4 == 6 {
        let m1 = set_v(m, 15, vx & 1u8);
        Ok(set_v(m1, x, m1.v[x] >> 1u8))
    } else if n4 == 7 {
        Ok(set_v(set_v(m, x, ((vy - vx + 256) % 256) as u8), 15, if vy >= vx { 1u8 } else { 0u8 }))
    } else if n4 == 0xE {
        let m1 = set_v(m, 15, (vx >> 7u8) & 1u8);
        Ok(set_v(m1, x, ((m1.v[x] * 2) % 256) as u8))
    } else {
        Err(TickError::UnknownOpcode(op))
    }
}

/// The `Fxkk` instructions.
pub open spec fn misc_spec(m: Machine, op: u16) -> Result<Machine, TickError> {
    let x = op_x(op);
    let kk = op_kk(op);
    if kk == 0x07 {
        Ok(set_v(m, x, m.dt))
    } else if kk == 0x0A {
        Ok(wait_key_spec(m, x))
    } else if kk == 0x15 {
        Ok(Machine { dt: m.v[x], ..m })
    } else if kk == 0x18 {
        Ok(Machine { st: m.v[x], ..m })
    } else if kk == 0x1E {
        Ok(Machine { i: (m.i + m.v[x]) % 4096, ..m })
    } else if kk == 0x29 {
        Ok(Machine { i: 5 * (m.v[x] % 16), ..m })
    } else if kk == 0x33 {
        Ok(bcd_spec(m, x))
    } else if kk == 0x55 {
        Ok(store_spec(m, x))
    } else if kk == 0x65 {
        Ok(load_regs_spec(m, x))
    } else {
        Err(TickError::UnknownOpcode(op))
    }
}

/// What instruction `op` does to a machine whose program counter already
/// points past it; `rnd` is the random byte that `Cxkk` uses.
pub open spec fn exec_op(m: Machine, op: u16, rnd: u8) -> Result<Machine, TickError> {
    let n1 = op >> 12u16;
    let x = op_x(op);
    let y = op_y(op);
    let n4 = op & 0xFu16;
    let kk = op_kk(op);
    let nnn = op_nnn(op);
    if op == 0x0000 {
        Ok(m)
    } else if op == 0x00E0 {
        Ok(Machine { gfx: Seq::new(m.gfx.len(), |p: int| 0u8), ..m })
    } else if op == 0x00EE {
        if m.sp == 0 {
            Err(TickError::StackUnderflow)
        } else {
            Ok(Machine { sp: m.sp - 1, pc: m.stack[m.sp - 1] as int, ..m })
        }
    } else if n1 == 1 {
        Ok(Machine { pc: nnn, ..m })
    } else if n1 == 2 {
        if m.sp >= 16 {
            Err(TickError::StackOverflow)
        } else {
            Ok(Machine { stack: m.stack.update(m.sp, m.pc as u16), sp: m.sp + 1, pc: nnn, ..m })
        }
    } else if n1 == 3 {
        Ok(skip_if(m, m.v[x] == kk))
    } else if n1 == 4 {
        Ok(skip_if(m, m.v[x] != kk))
    } else if n1 == 5 && n4 == 0 {
        Ok(skip_if(m, m.v[x] == m.v[y]))
    } else if n1 == 6 {
        Ok(set_v(m, x, kk))
    } else if n1 == 7 {
        Ok(set_v(m, x, ((m.v[x] + kk) % 256) as u8))
    } else if n1 == 8 {
        alu_spec(m, op)
    } else if n1 == 9 && n4 == 0 {
        Ok(skip_if(m, m.v[x] != m.v[y]))
    } else if n1 == 0xA {
        Ok(Machine { i: nnn, ..m })
    } else if n1 == 0xB {
        Ok(Machine { pc: (nnn + m.v[0]) % 4096, ..m })
    } else if n1 == 0xC {
        Ok(set_v(m, x, rnd & kk))
    } else if n1 == 0xD {
        Ok(draw_spec(m, x, y, n4 as int))
    } else if n1 == 0xE && kk == 0x9E {
        Ok(skip_if(m, m.key[(m.v[x] % 16) as int]))
    } else if n1 == 0xE && kk == 0xA1 {
        Ok(skip_if(m, !m.key[(m.v[x] % 16) as int]))
    } else if n1 == 0xF {
        misc_spec(m, op)
    } else {
        Err(TickError::UnknownOpcode(op))
    }
}

/// One timer tick: both timers count down to zero, and the sound timer
/// running out from 1 raises the beep signal.
pub open spec fn timers_spec(m: Machine) -> Machine {
    Machine {
        dt: if m.dt > 0 { (m.dt - 1) as u8 } else { 0 },
        st: if m.st > 0 { (m.st - 1) as u8 } else { 0 },
        beep: m.beep || m.st == 1,
        ..m
    }
}

/// One step: fetch, advance the program counter, execute, tick the timers.
pub open spec fn step_spec(m: Machine, rnd: u8) -> Result<Machine, TickError> {
    let advanced = Machine { pc: (m.pc + 2) % 4096, ..m };
    match exec_op(advanced, fetch(m), rnd) {
        Ok(n) => Ok(timers_spec(n)),
        Err(e) => Err(e),
    }
}

/// `m2` and `r` are what the outcome `s` of an operation on `m` gives: the
/// next state on success, or an error with the state unchanged.
pub open spec fn realizes(s: Result<Machine, TickError>, m: Machine, m2: Machine, r: Result<(), TickError>) -> bool {
    match s {
        Ok(n) => r is Ok && m2 == n,
        Err(e) => r == Err::<(), TickError>(e) && m2 == m,
    }
}

/// Whether a pixel lies in a sprite of `n` rows at `(col, row)` and comes
/// before row `r`, column `b` of the sprite in drawing order.
pub open spec fn visited(p: int, col: int, row: int, n: int, r: int, b: int) -> bool {
    let rp = (p / 64 - row) % 32;
    let bp = (p % 64 - col) % 64;
    rp < n && bp < 8 && (rp < r || (rp == r && bp < b))
}

/// `m2` and `r` are what one step from `m` with random byte `rnd` gives: the
/// next state on success, or an error with the state unchanged.
pub open spec fn steps_to(m: Machine, rnd: u8, m2: Machine, r: Result<(), TickError>) -> bool {
    realizes(step_spec(m, rnd), m, m2, r)
}

} // verus!
