//! Laws that hold of the instruction semantics.
use vstd::prelude::*;
use vstd::arithmetic::div_mod::lemma_fundamental_div_mod_converse;
use crate::machine::{
    collides, draw_spec, drawn, exec_op, fetch, jumps_to_odd, load_regs_spec, op_kk, op_x,
    sprite_pixel, step_spec, store_spec, Machine, TickError,
};

verus! {

/// A sprite pixel is 0 or 1.
proof fn lemma_sprite_pixel_bit(mem: Seq<u8>, i: int, col: int, row: int, n: int, p: int)
    requires
        mem.len() == 4096,
        0 <= i < 4096,
    ensures
        sprite_pixel(mem, i, col, row, n, p) <= 1,
{
    let r = (p / 64 - row) % 32;
    let b = (p % 64 - col) % 64;
    if r < n && b < 8 {
        let byte = mem[(i + r) % 4096];
        let s = (7 - b) as u8;
        assert((byte >> s) & 1u8 <= 1) by (bit_vector);
    }
}

/// `a mod 4096` has the parity of `a`.
proof fn lemma_parity_mod(a: int)
    requires
        0 <= a < 8192,
    ensures
        (a % 4096) % 2 == a % 2,
{
    if a >= 4096 {
        lemma_fundamental_div_mod_converse(a, 4096, 1, a - 4096);
    } else {
        lemma_fundamental_div_mod_converse(a, 4096, 0, a);
    }
}

/// After any successful step the machine is well formed again; a framebuffer
/// of zeros and ones stays so; and an even program counter with even saved
/// return addresses stays so, unless the instruction jumps to an odd address.
pub proof fn lemma_step_invariants(m: Machine, rnd: u8)
    requires
        m.wf(),
    ensures
        step_spec(m, rnd) is Ok ==> {
            let n = step_spec(m, rnd)->Ok_0;
            &&& n.wf()
            &&& m.screen_is_binary() ==> n.screen_is_binary()
            &&& m.aligned() && !jumps_to_odd(m, fetch(m)) ==> n.aligned()
        },
{
    let op = fetch(m);
    let a = Machine { pc: (m.pc + 2) % 4096, ..m };
    lemma_parity_mod(m.pc + 2);
    lemma_parity_mod(a.pc + 2);
    lemma_parity_mod(a.pc + 4094);
    crate::chip8::lemma_decode(op);
    if step_spec(m, rnd) is Ok {
        let n = step_spec(m, rnd)->Ok_0;
        let n1 = op >> 12u16;
        if n1 == 0xB {
            lemma_parity_mod((op & 0x0FFFu16) as int + m.v[0]);
        }
        if n1 == 0xD {
            let col = (m.v[op_x(op)] % 64) as int;
            let row = (m.v[crate::machine::op_y(op)] % 32) as int;
            let nn = (op & 0xFu16) as int;
            assert forall|p: int| 0 <= p < 2048 && m.screen_is_binary() implies #[trigger] n.gfx[p] <= 1 by {
                lemma_sprite_pixel_bit(m.mem, m.i, col, row, nn, p);
                let g = m.gfx[p];
                let s = sprite_pixel(m.mem, m.i, col, row, nn, p);
                assert(g <= 1 && s <= 1 ==> g ^ s <= 1) by (bit_vector);
            }
        }
    }
}

/// The instructions that set VF from a computation (`8xy4`, `8xy5`, `8xy6`,
/// `8xy7`, `8xyE` with `x` other than F, and `Dxyn`) leave 0 or 1 in it. For
/// `8FyE` the shift of VF itself comes last, so that one is left out.
pub proof fn lemma_flag_is_binary(m: Machine, op: u16, rnd: u8)
    requires
        m.wf(),
        ({
            let n1 = op >> 12u16;
            let n4 = op & 0xFu16;
            ||| n1 == 8 && (n4 == 4 || n4 == 5 || n4 == 6 || n4 == 7)
            ||| n1 == 8 && n4 == 0xE && op_x(op) != 15
            ||| n1 == 0xD
        }),
    ensures
        exec_op(m, op, rnd) is Ok,
        exec_op(m, op, rnd)->Ok_0.v[15] <= 1,
{
    crate::chip8::lemma_decode(op);
    let vx = m.v[op_x(op)];
    assert(vx & 1u8 <= 1) by (bit_vector);
    assert((vx >> 1u8) <= 127) by (bit_vector);
    assert((vx >> 7u8) & 1u8 <= 1) by (bit_vector);
    assert((vx & 1u8) >> 1u8 == 0) by (bit_vector);
}

/// Drawing a sprite twice at the same position, with memory and `I`
/// unchanged, restores the framebuffer; the second draw reports a collision
/// exactly when the first left a sprite pixel lit, which is when the first
/// found one of them off. On a blank framebuffer that is when the sprite has
/// a set bit.
pub proof fn lemma_draw_twice(m: Machine, x: int, y: int, n: int)
    requires
        m.wf(),
        0 <= x < 16,
        0 <= y < 16,
        draw_spec(m, x, y, n).v[x] % 64 == m.v[x] % 64,
        draw_spec(m, x, y, n).v[y] % 32 == m.v[y] % 32,
    ensures
        draw_spec(draw_spec(m, x, y, n), x, y, n).gfx == m.gfx,
        draw_spec(draw_spec(m, x, y, n), x, y, n).v[15] == 1 <==> exists|p: int|
            0 <= p < 2048 && #[trigger] sprite_pixel(m.mem, m.i, (m.v[x] % 64) as int, (m.v[y] % 32) as int, n, p)
                == 1 && draw_spec(m, x, y, n).gfx[p] == 1,
        draw_spec(draw_spec(m, x, y, n), x, y, n).v[15] == 1 <==> exists|p: int|
            0 <= p < 2048 && #[trigger] sprite_pixel(m.mem, m.i, (m.v[x] % 64) as int, (m.v[y] % 32) as int, n, p)
                == 1 && m.gfx[p] == 0,
        (forall|p: int| 0 <= p < 2048 ==> m.gfx[p] == 0) ==> (draw_spec(draw_spec(m, x, y, n), x, y, n).v[15]
            == 1 <==> exists|p: int|
            0 <= p < 2048 && #[trigger] sprite_pixel(m.mem, m.i, (m.v[x] % 64) as int, (m.v[y] % 32) as int, n, p)
                == 1),
{
    let col = (m.v[x] % 64) as int;
    let row = (m.v[y] % 32) as int;
    let m1 = draw_spec(m, x, y, n);
    let m2 = draw_spec(m1, x, y, n);
    assert forall|p: int| 0 <= p < 2048 implies #[trigger] m2.gfx[p] == m.gfx[p] by {
        let g = m.gfx[p];
        let s = sprite_pixel(m.mem, m.i, col, row, n, p);
        assert((g ^ s) ^ s == g) by (bit_vector);
    }
    assert(m2.gfx =~= m.gfx);
    assert forall|p: int| 0 <= p < 2048 implies (#[trigger] sprite_pixel(m.mem, m.i, col, row, n, p) == 1
        && m1.gfx[p] == 1) == (sprite_pixel(m.mem, m.i, col, row, n, p) == 1 && m.gfx[p] == 0) by {
        let g = m.gfx[p];
        assert((g ^ 1u8 == 1u8) == (g == 0u8)) by (bit_vector);
    }
    if collides(m1.gfx, m.mem, m.i, col, row, n) {
        let p = choose|p: int|
            0 <= p < 2048 && #[trigger] sprite_pixel(m.mem, m.i, col, row, n, p) == 1 && m1.gfx[p] == 1;
        assert(m.gfx[p] == 0);
    }
}

/// Clearing the screen twice is clearing it once.
pub proof fn lemma_clear_idempotent(m: Machine, rnd: u8)
    requires
        m.wf(),
    ensures
        exec_op(m, 0x00E0, rnd) is Ok,
        exec_op(exec_op(m, 0x00E0, rnd)->Ok_0, 0x00E0, rnd) == exec_op(m, 0x00E0, rnd),
{
    let m1 = exec_op(m, 0x00E0, rnd)->Ok_0;
    assert(m1.gfx.len() == m.gfx.len());
    assert(exec_op(m1, 0x00E0, rnd)->Ok_0.gfx =~= m1.gfx);
}

/// `Fx33` stores three decimal digits at `I`, `I + 1`, `I + 2` that make up
/// `Vx`.
pub proof fn lemma_bcd(m: Machine, op: u16, rnd: u8)
    requires
        m.wf(),
        op >> 12u16 == 0xF,
        op_kk(op) == 0x33,
    ensures
        exec_op(m, op, rnd) is Ok,
        ({
            let n = exec_op(m, op, rnd)->Ok_0;
            let h = n.mem[m.i];
            let t = n.mem[(m.i + 1) % 4096];
            let o = n.mem[(m.i + 2) % 4096];
            &&& h <= 9 && t <= 9 && o <= 9
            &&& h * 100 + t * 10 + o == m.v[op_x(op)]
        }),
{
    crate::chip8::lemma_decode(op);
    lemma_parity_mod(m.i + 1);
    lemma_parity_mod(m.i + 2);
    if m.i + 2 >= 4096 {
        lemma_fundamental_div_mod_converse(m.i + 2, 4096, 1, m.i + 2 - 4096);
    } else {
        lemma_fundamental_div_mod_converse(m.i + 2, 4096, 0, m.i + 2);
    }
    if m.i + 1 >= 4096 {
        lemma_fundamental_div_mod_converse(m.i + 1, 4096, 1, m.i + 1 - 4096);
    } else {
        lemma_fundamental_div_mod_converse(m.i + 1, 4096, 0, m.i + 1);
    }
    let b = m.v[op_x(op)];
    assert(b / 100 <= 9 && (b % 100) / 10 <= 9 && b % 10 <= 9);
    assert((b / 100) * 100 + ((b % 100) / 10) * 10 + b % 10 == b);
}

/// `Fx55` followed by `Fx65` with the same `x` and `I` leaves the registers as
/// they were.
pub proof fn lemma_store_load(m: Machine, op1: u16, op2: u16, rnd: u8)
    requires
        m.wf(),
        op1 >> 12u16 == 0xF,
        op_kk(op1) == 0x55,
        op2 >> 12u16 == 0xF,
        op_kk(op2) == 0x65,
        op_x(op1) == op_x(op2),
    ensures
        exec_op(m, op1, rnd) is Ok,
        exec_op(exec_op(m, op1, rnd)->Ok_0, op2, rnd) is Ok,
        exec_op(exec_op(m, op1, rnd)->Ok_0, op2, rnd)->Ok_0.v == m.v,
{
    crate::chip8::lemma_decode(op1);
    crate::chip8::lemma_decode(op2);
    let x = op_x(op1);
    let m1 = exec_op(m, op1, rnd)->Ok_0;
    let m2 = exec_op(m1, op2, rnd)->Ok_0;
    assert(m1 == store_spec(m, x));
    assert(m2 == load_regs_spec(m1, x));
    assert forall|j: int| 0 <= j < 16 implies #[trigger] m2.v[j] == m.v[j] by {
        if j <= x {
            let a = (m.i + j) % 4096;
            crate::chip8::lemma_offset(a, m.i, j);
            assert(m1.mem[a] == m.v[j]);
        }
    }
    assert(m2.v =~= m.v);
}

/// A sprite drawn from `Vx = 65`, `Vy = 34` lands at column 1, row 2, and
/// only pixels of that sprite change.
pub proof fn lemma_draw_wraps(m: Machine, x: int, y: int, n: int)
    requires
        m.wf(),
        0 <= x < 16,
        0 <= y < 16,
        m.v[x] == 65,
        m.v[y] == 34,
    ensures
        draw_spec(m, x, y, n).gfx == drawn(m.gfx, m.mem, m.i, 1, 2, n),
        forall|p: int|
            0 <= p < 2048 && #[trigger] draw_spec(m, x, y, n).gfx[p] != m.gfx[p] ==> (p / 64 - 2) % 32 < n
                && (p % 64 - 1) % 64 < 8,
{
    assert forall|p: int|
        0 <= p < 2048 && #[trigger] draw_spec(m, x, y, n).gfx[p] != m.gfx[p] implies (p / 64 - 2) % 32 < n && (p
        % 64 - 1) % 64 < 8 by {
        let g = m.gfx[p];
        assert(g ^ 0u8 == g) by (bit_vector);
    }
}

/// The state after taking one step per random byte of `rnds` from `m`, or
/// the first error.
pub open spec fn run(m: Machine, rnds: Seq<u8>) -> Result<Machine, TickError>
    decreases rnds.len(),
{
    if rnds.len() == 0 {
        Ok(m)
    } else {
        match step_spec(m, rnds[0]) {
            Ok(n) => run(n, rnds.drop_first()),
            Err(e) => Err(e),
        }
    }
}

/// No state of that run has fewer than `d` saved return addresses.
pub open spec fn stays_at_depth(m: Machine, rnds: Seq<u8>, d: int) -> bool
    decreases rnds.len(),
{
    &&& m.sp >= d
    &&& rnds.len() > 0 ==> match step_spec(m, rnds[0]) {
        Ok(n) => stays_at_depth(n, rnds.drop_first(), d),
        Err(_) => true,
    }
}

/// A run that never drops below depth `d` keeps the bottom `d` stack slots.
proof fn lemma_run_keeps_stack(m: Machine, rnds: Seq<u8>, d: int)
    requires
        m.wf(),
        stays_at_depth(m, rnds, d),
        run(m, rnds) is Ok,
    ensures
        run(m, rnds)->Ok_0.wf(),
        forall|j: int| 0 <= j < d ==> #[trigger] run(m, rnds)->Ok_0.stack[j] == m.stack[j],
    decreases rnds.len(),
{
    if rnds.len() > 0 {
        let n = step_spec(m, rnds[0])->Ok_0;
        lemma_step_invariants(m, rnds[0]);
        crate::chip8::lemma_decode(fetch(m));
        lemma_run_keeps_stack(n, rnds.drop_first(), d);
        assert forall|j: int| 0 <= j < d implies #[trigger] n.stack[j] == m.stack[j] by {}
    }
}

/// Call/return balance: after a `2nnn` step, any run that never returns below
/// the depth the call left, and ends back at that depth on a `00EE`, returns
/// to the address right after the call with the stack pointer as it was
/// before the call.
pub proof fn lemma_call_return(m: Machine, rnd: u8, rnds: Seq<u8>, rnd_ret: u8)
    requires
        m.wf(),
        fetch(m) >> 12u16 == 2,
        m.sp < 16,
        stays_at_depth(step_spec(m, rnd)->Ok_0, rnds, m.sp + 1),
        run(step_spec(m, rnd)->Ok_0, rnds) is Ok,
        run(step_spec(m, rnd)->Ok_0, rnds)->Ok_0.sp == m.sp + 1,
        fetch(run(step_spec(m, rnd)->Ok_0, rnds)->Ok_0) == 0x00EE,
    ensures
        step_spec(m, rnd) is Ok,
        step_spec(run(step_spec(m, rnd)->Ok_0, rnds)->Ok_0, rnd_ret) is Ok,
        step_spec(run(step_spec(m, rnd)->Ok_0, rnds)->Ok_0, rnd_ret)->Ok_0.sp == m.sp,
        step_spec(run(step_spec(m, rnd)->Ok_0, rnds)->Ok_0, rnd_ret)->Ok_0.pc == (m.pc + 2) % 4096,
{
    crate::chip8::lemma_decode(fetch(m));
    let m1 = step_spec(m, rnd)->Ok_0;
    lemma_step_invariants(m, rnd);
    lemma_run_keeps_stack(m1, rnds, m.sp + 1);
    let mk = run(m1, rnds)->Ok_0;
    assert(mk.stack[m.sp] == m1.stack[m.sp]);
}

/// Only calls and returns touch the stack: any other successful step keeps
/// the stack pointer and the stack.
pub proof fn lemma_stack_frame(m: Machine, rnd: u8)
    requires
        m.wf(),
        fetch(m) >> 12u16 != 2,
        fetch(m) != 0x00EE,
    ensures
        step_spec(m, rnd) is Ok ==> step_spec(m, rnd)->Ok_0.sp == m.sp && step_spec(m, rnd)->Ok_0.stack
            == m.stack,
{
}

} // verus!
