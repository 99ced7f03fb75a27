//! Properties of the execution engine that hold for every machine state.
use vstd::arithmetic::div_mod::lemma_fundamental_div_mod_converse;
use vstd::prelude::*;

use crate::instruction::{decoded, n_of, nn_of, nnn_of, op_of, x_of, y_of, Instruction};
use crate::machine::{
    fetched, first_pressed, step_spec, Chip8Model, Fault, FaultKind, MEMORY_SIZE, STACK_DEPTH,
};
use crate::machine::execute_spec;
use crate::sprite::{
    draw_row, draw_rows, fb_addr, head_bits, last_row, spills, tail_bits, FRAMEBUFFER_START,
};

verus! {

/// The instruction word at `pc` consists of the bytes `hi` and `lo`.
pub open spec fn at_pc(s: Chip8Model, hi: int, lo: int) -> bool {
    &&& s.pc + 1 < MEMORY_SIZE
    &&& s.memory[s.pc as int] == hi
    &&& s.memory[s.pc + 1] == lo
}

/// The fields of the instruction word made of the bytes `hi` and `lo`.
pub proof fn lemma_word_fields(hi: u8, lo: u8)
    ensures
        ({
            let w = (hi * 256 + lo) as u16;
            &&& op_of(w) == hi / 16
            &&& x_of(w) == hi % 16
            &&& y_of(w) == lo / 16
            &&& n_of(w) == lo % 16
            &&& nn_of(w) == lo
            &&& nnn_of(w) == (hi % 16) * 256 + lo
        }),
{
    let (h, l) = (hi as int, lo as int);
    let w = h * 256 + l;
    let (a, b, c, d) = (h / 16, h % 16, l / 16, l % 16);
    lemma_fundamental_div_mod_converse(h, 16, a, b);
    lemma_fundamental_div_mod_converse(l, 16, c, d);
    lemma_fundamental_div_mod_converse(w, 4096, a, b * 256 + l);
    lemma_fundamental_div_mod_converse(w, 256, h, l);
    lemma_fundamental_div_mod_converse(w, 16, h * 16 + c, d);
    lemma_fundamental_div_mod_converse(h * 16 + c, 16, h, c);
}

/// The instruction fetched at `pc` when it holds the bytes `hi` and `lo`.
pub proof fn lemma_fetched_at_pc(s: Chip8Model, hi: u8, lo: u8)
    requires
        at_pc(s, hi as int, lo as int),
    ensures
        fetched(s) == Some((hi * 256 + lo) as u16),
        fetched(Chip8Model { display_updated: false, ..s }) == Some((hi * 256 + lo) as u16),
{
    lemma_word_fields(hi, lo);
}

/// Loading an immediate: after `6XNN`, register `X` holds `NN`, whatever it held.
pub proof fn law_load_immediate(s: Chip8Model, x: u8, nn: u8, rnd: u8)
    requires
        s.wf(),
        x < 16,
        at_pc(s, 0x60 + x, nn as int),
    ensures
        step_spec(s, rnd) is Ok,
        step_spec(s, rnd)->Ok_0.v[x as int] == nn,
{
    let hi = (0x60 + x) as u8;
    lemma_fetched_at_pc(s, hi, nn);
    lemma_word_fields(hi, nn);
}

/// Adding an immediate: `7XNN` sets register `X` to `(VX + NN) mod 256` and
/// leaves every other register, `VF` included, as it was.
pub proof fn law_add_immediate_wraps(s: Chip8Model, x: u8, nn: u8, rnd: u8)
    requires
        s.wf(),
        x < 16,
        at_pc(s, 0x70 + x, nn as int),
    ensures
        step_spec(s, rnd) is Ok,
        step_spec(s, rnd)->Ok_0.v == s.v.update(x as int, ((s.v[x as int] + nn) % 256) as u8),
{
    let hi = (0x70 + x) as u8;
    lemma_fetched_at_pc(s, hi, nn);
    lemma_word_fields(hi, nn);
}

/// Subroutine round trip: a `2NNN` call pushes one return address and jumps to
/// `NNN`; the `00EE` found there comes back to the instruction after the call,
/// with the stack as deep as before the call.
pub proof fn law_call_return_round_trip(s: Chip8Model, hi: u8, lo: u8, rnd1: u8, rnd2: u8)
    requires
        s.wf(),
        s.sp < STACK_DEPTH,
        0x20 <= hi < 0x30,
        at_pc(s, hi as int, lo as int),
        (hi % 16) * 256 + lo + 1 < MEMORY_SIZE,
        s.memory[(hi % 16) * 256 + lo] == 0x00,
        s.memory[(hi % 16) * 256 + lo + 1] == 0xEE,
    ensures
        step_spec(s, rnd1) is Ok,
        step_spec(s, rnd1)->Ok_0.pc == (hi % 16) * 256 + lo,
        step_spec(s, rnd1)->Ok_0.sp == s.sp + 1,
        step_spec(step_spec(s, rnd1)->Ok_0, rnd2) is Ok,
        step_spec(step_spec(s, rnd1)->Ok_0, rnd2)->Ok_0.pc == s.pc + 2,
        step_spec(step_spec(s, rnd1)->Ok_0, rnd2)->Ok_0.sp == s.sp,
{
    lemma_fetched_at_pc(s, hi, lo);
    lemma_word_fields(hi, lo);
    let t = step_spec(s, rnd1)->Ok_0;
    lemma_fetched_at_pc(t, 0x00, 0xEE);
    lemma_word_fields(0x00, 0xEE);
}

/// Call-stack overflow: a `2NNN` with all sixteen return slots in use is a
/// fatal fault at that instruction.
pub proof fn law_call_overflow_is_fatal(s: Chip8Model, hi: u8, lo: u8, rnd: u8)
    requires
        s.wf(),
        s.sp == STACK_DEPTH,
        0x20 <= hi < 0x30,
        at_pc(s, hi as int, lo as int),
    ensures
        step_spec(s, rnd) == Err::<Chip8Model, Fault>(
            Fault { kind: FaultKind::StackOverflow, pc: s.pc, instruction: Some((hi * 256 + lo) as u16) },
        ),
{
    lemma_fetched_at_pc(s, hi, lo);
    lemma_word_fields(hi, lo);
}

/// Drawing sprite rows never changes the size of memory.
pub proof fn lemma_draw_rows_len(mem: Seq<u8>, i: int, x: int, y: int, n: int, row: int, hit: bool)
    requires
        mem.len() == MEMORY_SIZE,
        0 <= x < 64,
        0 <= y < 32,
    ensures
        draw_rows(mem, i, x, y, n, row, hit).0.len() == MEMORY_SIZE,
    decreases n + 1 - row,
{
    if !(row > n || y + row >= 32 || row < 0) {
        let (m, c) = draw_row(mem, mem[i + row], x, y + row);
        lemma_draw_rows_len(m, i, x, y, n, row + 1, hit || c);
    }
}

/// The stack pointer never exceeds the stack's capacity: every cycle that
/// succeeds leaves a well-formed machine.
pub proof fn law_step_preserves_wf(s: Chip8Model, rnd: u8)
    requires
        s.wf(),
        step_spec(s, rnd) is Ok,
    ensures
        step_spec(s, rnd)->Ok_0.wf(),
        step_spec(s, rnd)->Ok_0.sp <= STACK_DEPTH,
{
    let w = fetched(s)->Some_0;
    let ins = decoded(w)->Some_0;
    let s1 = Chip8Model { pc: (s.pc + 2) as u16, display_updated: false, ..s };
    if let Instruction::Draw { x, y, n } = ins {
        lemma_draw_rows_len(s1.memory, s1.i as int, (s1.v[x as int] % 64) as int,
            (s1.v[y as int] % 32) as int, n as int, 0, false);
    }
}

/// Clearing the screen: `00E0` zeroes all 256 framebuffer bytes and marks the
/// display changed.
pub proof fn law_clear_screen(s: Chip8Model, rnd: u8)
    requires
        s.wf(),
        at_pc(s, 0x00, 0xE0),
    ensures
        step_spec(s, rnd) is Ok,
        step_spec(s, rnd)->Ok_0.framebuffer() == Seq::new(256, |k: int| 0u8),
        step_spec(s, rnd)->Ok_0.display_updated,
{
    lemma_fetched_at_pc(s, 0x00, 0xE0);
    lemma_word_fields(0x00, 0xE0);
    assert(step_spec(s, rnd)->Ok_0.framebuffer() =~= Seq::new(256, |k: int| 0u8));
}

/// The instructions that may write to the framebuffer.
pub open spec fn may_write_framebuffer(ins: Instruction) -> bool {
    ||| ins is ClearScreen
    ||| ins is Draw
    ||| ins is StoreBcd
    ||| ins is StoreRegs
}

/// The display flag belongs to one cycle: a cycle whose instruction cannot
/// write to the framebuffer ends with the flag false, whatever it was before.
pub proof fn law_display_flag_resets(s: Chip8Model, rnd: u8)
    requires
        s.wf(),
        step_spec(s, rnd) is Ok,
        !may_write_framebuffer(decoded(fetched(s)->Some_0)->Some_0),
    ensures
        !step_spec(s, rnd)->Ok_0.display_updated,
{
}

/// `first_pressed` finds the lowest pressed key at or after `from`, and none
/// when no key there is pressed.
pub proof fn lemma_first_pressed(keys: Seq<bool>, from: int)
    requires
        keys.len() == 16,
        0 <= from <= 16,
    ensures
        first_pressed(keys, from) is None <==> (forall|j: int| from <= j < 16 ==> !keys[j]),
        first_pressed(keys, from) is Some ==> ({
            let k = first_pressed(keys, from)->Some_0 as int;
            &&& from <= k < 16
            &&& keys[k]
            &&& forall|j: int| from <= j < k ==> !keys[j]
        }),
    decreases 16 - from,
{
    if from < 16 {
        lemma_first_pressed(keys, from + 1);
    }
}

/// Waiting for a key with none pressed: `FX0A` leaves `pc` on itself, so the
/// next cycle fetches it again, and changes no register, memory or stack.
pub proof fn law_wait_key_blocks(s: Chip8Model, x: u8, rnd: u8)
    requires
        s.wf(),
        x < 16,
        at_pc(s, 0xF0 + x, 0x0A),
        forall|k: int| 0 <= k < 16 ==> !s.keypad[k],
    ensures
        step_spec(s, rnd) is Ok,
        step_spec(s, rnd)->Ok_0.pc == s.pc,
        at_pc(step_spec(s, rnd)->Ok_0, 0xF0 + x, 0x0A),
        step_spec(s, rnd)->Ok_0.v == s.v,
        step_spec(s, rnd)->Ok_0.memory == s.memory,
        step_spec(s, rnd)->Ok_0.i == s.i,
        step_spec(s, rnd)->Ok_0.sp == s.sp,
        step_spec(s, rnd)->Ok_0.stack == s.stack,
{
    let hi = (0xF0 + x) as u8;
    lemma_fetched_at_pc(s, hi, 0x0A);
    lemma_word_fields(hi, 0x0A);
    lemma_first_pressed(s.keypad, 0);
}

/// Waiting for a key with some pressed: `FX0A` stores the lowest pressed key's
/// index in `VX` and moves on to the next instruction.
pub proof fn law_wait_key_takes_lowest(s: Chip8Model, x: u8, k: int, rnd: u8)
    requires
        s.wf(),
        x < 16,
        at_pc(s, 0xF0 + x, 0x0A),
        0 <= k < 16,
        s.keypad[k],
        forall|j: int| 0 <= j < k ==> !s.keypad[j],
    ensures
        step_spec(s, rnd) is Ok,
        step_spec(s, rnd)->Ok_0.v[x as int] == k,
        step_spec(s, rnd)->Ok_0.pc == s.pc + 2,
{
    let hi = (0xF0 + x) as u8;
    lemma_fetched_at_pc(s, hi, 0x0A);
    lemma_word_fields(hi, 0x0A);
    lemma_first_pressed(s.keypad, 0);
}

/// A timer counted down once: one less when nonzero, zero stays zero.
pub open spec fn counted_down(t: u8) -> u8 {
    if t > 0 {
        (t - 1) as u8
    } else {
        0
    }
}

/// Timers never go below zero and fall by at most one per cycle: each cycle
/// counts the delay and sound timers down once from the value they had, or
/// from the value that the cycle's `FX15` / `FX18` loaded into them.
pub proof fn law_timers_count_down(s: Chip8Model, rnd: u8)
    requires
        s.wf(),
        step_spec(s, rnd) is Ok,
    ensures
        ({
            let ins = decoded(fetched(s)->Some_0)->Some_0;
            let t = step_spec(s, rnd)->Ok_0;
            &&& t.delay_timer == counted_down(
                match ins {
                    Instruction::SetDelay { x } => s.v[x as int],
                    _ => s.delay_timer,
                },
            )
            &&& t.sound_timer == counted_down(
                match ins {
                    Instruction::SetSound { x } => s.v[x as int],
                    _ => s.sound_timer,
                },
            )
            &&& t.sound_active == (match ins {
                Instruction::SetSound { x } => s.v[x as int],
                _ => s.sound_timer,
            } > 0)
        }),
{
}

/// The bits that drawing sprite rows `row..=n`, read from `mem[i + r]`, at
/// `(x, y + r)` XORs into the byte at address `a`.
pub open spec fn sprite_mask(mem: Seq<u8>, i: int, x: int, y: int, n: int, row: int, a: int) -> u8 {
    let rel = a - FRAMEBUFFER_START;
    let r = rel / 8 - y;
    let c = rel % 8;
    if rel < 0 || rel >= 256 || r < row || r > n {
        0
    } else if c == x / 8 {
        head_bits(mem[i + r], (x % 8) as u8)
    } else if c == x / 8 + 1 && x % 8 != 0 {
        tail_bits(mem[i + r], (x % 8) as u8)
    } else {
        0
    }
}

proof fn lemma_xor_facts(b: u8, m: u8, sh: u8)
    requires
        sh < 8,
    ensures
        b ^ 0 == b,
        b & 0 == 0,
        (b ^ m) ^ m == b,
        ((b ^ m) & m) == ((b ^ m) & !b),
        (0u8 >> sh) == 0,
        sh > 0 ==> (0u8 << ((8 - sh) as u8)) == 0,
{
    assert(b ^ 0 == b) by (bit_vector);
    assert(b & 0 == 0) by (bit_vector);
    assert((b ^ m) ^ m == b) by (bit_vector);
    assert(((b ^ m) & m) == ((b ^ m) & !b)) by (bit_vector);
    assert((0u8 >> sh) == 0) by (bit_vector)
        requires sh < 8;
    if sh > 0 {
        let t = (8 - sh) as u8;
        assert((0u8 << t) == 0) by (bit_vector)
            requires t < 8;
    }
}

/// The pixel row and byte column of framebuffer address `a`.
proof fn lemma_fb_coords(a: int, row: int, col: int)
    requires
        0 <= col < 8,
        0 <= row,
        a == fb_addr(row, col),
    ensures
        (a - FRAMEBUFFER_START) / 8 == row,
        (a - FRAMEBUFFER_START) % 8 == col,
{
    lemma_fundamental_div_mod_converse(a - FRAMEBUFFER_START, 8, row, col);
}

/// Every framebuffer address is the address of its pixel row and byte column.
proof fn lemma_fb_split(a: int)
    requires
        FRAMEBUFFER_START <= a,
    ensures
        a == fb_addr((a - FRAMEBUFFER_START) / 8, (a - FRAMEBUFFER_START) % 8),
        0 <= (a - FRAMEBUFFER_START) % 8 < 8,
{
    let rel = a - FRAMEBUFFER_START;
    assert(rel == (rel / 8) * 8 + rel % 8) by (nonlinear_arith);
}

/// Drawing sprite rows whose bytes lie outside the framebuffer XORs each byte
/// with its `sprite_mask`, and reports a collision exactly when some byte had
/// a set bit under its mask.
pub proof fn lemma_draw_rows_is_xor(mem: Seq<u8>, i: int, x: int, y: int, n: int, row: int, hit: bool)
    requires
        mem.len() == MEMORY_SIZE,
        0 <= x < 64,
        0 <= y < 32,
        0 <= row,
        0 <= i,
        i + last_row(y, n) < FRAMEBUFFER_START,
    ensures
        draw_rows(mem, i, x, y, n, row, hit).0.len() == MEMORY_SIZE,
        forall|a: int|
            0 <= a < MEMORY_SIZE ==> #[trigger] draw_rows(mem, i, x, y, n, row, hit).0[a] == mem[a]
                ^ sprite_mask(mem, i, x, y, n, row, a),
        draw_rows(mem, i, x, y, n, row, hit).1 == (hit || exists|a: int|
            0 <= a < MEMORY_SIZE && #[trigger] (mem[a] & sprite_mask(mem, i, x, y, n, row, a)) != 0),
    decreases n + 1 - row,
{
    let sh = (x % 8) as u8;
    if row > n || y + row >= 32 {
        assert forall|a: int| 0 <= a < MEMORY_SIZE implies sprite_mask(mem, i, x, y, n, row, a) == 0 by {
            if FRAMEBUFFER_START <= a {
                lemma_fb_split(a);
            }
        }
        assert forall|a: int| 0 <= a < MEMORY_SIZE implies mem[a] ^ sprite_mask(mem, i, x, y, n, row, a) == mem[a] by {
            lemma_xor_facts(mem[a], 0, 0);
        }
        assert forall|a: int| 0 <= a < MEMORY_SIZE implies (mem[a] & sprite_mask(mem, i, x, y, n, row, a)) == 0 by {
            lemma_xor_facts(mem[a], 0, 0);
        }
    } else {
        let sp = mem[i + row];
        let (m1, c1) = draw_row(mem, sp, x, y + row);
        let big_a = fb_addr(y + row, x / 8);
        lemma_fb_coords(big_a, y + row, x / 8);
        if spills(x) {
            lemma_fb_coords(big_a + 1, y + row, x / 8 + 1);
        }
        lemma_xor_facts(mem[big_a], head_bits(sp, sh), sh);
        lemma_xor_facts(mem[big_a + 1], tail_bits(sp, sh), sh);
        lemma_draw_rows_is_xor(m1, i, x, y, n, row + 1, hit || c1);
        // the rows still to draw read the same sprite bytes
        assert forall|a: int| 0 <= a < MEMORY_SIZE implies #[trigger] sprite_mask(m1, i, x, y, n, row + 1, a)
            == sprite_mask(mem, i, x, y, n, row + 1, a) by {
            if FRAMEBUFFER_START <= a {
                lemma_fb_split(a);
            }
        }
        // this row's bytes carry its bits; every other byte is as before
        assert forall|a: int| 0 <= a < MEMORY_SIZE implies {
            &&& (#[trigger] m1[a] ^ sprite_mask(mem, i, x, y, n, row + 1, a)) == (mem[a] ^ sprite_mask(mem, i, x, y, n, row, a))
            &&& ((m1[a] & sprite_mask(mem, i, x, y, n, row + 1, a)) != 0 || (a == big_a && (mem[a] & head_bits(sp, sh)) != 0)
                || (spills(x) && a == big_a + 1 && (mem[a] & tail_bits(sp, sh)) != 0))
                == ((mem[a] & sprite_mask(mem, i, x, y, n, row, a)) != 0)
        } by {
            let m_next = sprite_mask(mem, i, x, y, n, row + 1, a);
            let m_here = sprite_mask(mem, i, x, y, n, row, a);
            lemma_xor_facts(mem[a], m_next, sh);
            lemma_xor_facts(mem[a], m_here, sh);
            lemma_xor_facts(m1[a], m_next, sh);
            if FRAMEBUFFER_START <= a {
                lemma_fb_split(a);
            }
        }
        let draw_hits = exists|a: int|
            0 <= a < MEMORY_SIZE && #[trigger] (mem[a] & sprite_mask(mem, i, x, y, n, row, a)) != 0;
        let rest_hits = exists|a: int|
            0 <= a < MEMORY_SIZE && #[trigger] (m1[a] & sprite_mask(m1, i, x, y, n, row + 1, a)) != 0;
        if draw_hits {
            let a = choose|a: int|
                0 <= a < MEMORY_SIZE && #[trigger] (mem[a] & sprite_mask(mem, i, x, y, n, row, a)) != 0;
            assert(m1[a] & sprite_mask(m1, i, x, y, n, row + 1, a) == m1[a] & sprite_mask(mem, i, x, y, n, row + 1, a));
        }
        if rest_hits {
            let a = choose|a: int|
                0 <= a < MEMORY_SIZE && #[trigger] (m1[a] & sprite_mask(m1, i, x, y, n, row + 1, a)) != 0;
            assert(mem[a] & sprite_mask(mem, i, x, y, n, row, a) != 0);
        }
        if c1 {
            if spills(x) && (mem[big_a + 1] & tail_bits(sp, sh)) != 0 {
                assert(mem[big_a + 1] & sprite_mask(mem, i, x, y, n, row, big_a + 1) != 0);
            } else {
                assert(mem[big_a] & sprite_mask(mem, i, x, y, n, row, big_a) != 0);
            }
        }
    }
}

/// Drawing a sprite twice at the same place restores memory: with the sprite's
/// rows outside the framebuffer and its position in registers other than `VF`,
/// a second `DXYN` erases exactly what the first drew, and reports a collision
/// exactly when the first draw turned some pixel on.
pub proof fn law_draw_twice_restores(s: Chip8Model, x: u8, y: u8, n: u8, rnd: u8)
    requires
        s.wf(),
        x < 15,
        y < 15,
        n < 16,
        s.i + last_row((s.v[y as int] % 32) as int, n as int) < FRAMEBUFFER_START,
    ensures
        ({
            let ins = Instruction::Draw { x, y, n };
            let first = execute_spec(s, ins, rnd);
            let second = execute_spec(first->Ok_0, ins, rnd);
            &&& first is Ok
            &&& second is Ok
            &&& second->Ok_0.memory == s.memory
            &&& second->Ok_0.v[15] == 0 || second->Ok_0.v[15] == 1
            &&& second->Ok_0.v[15] == 1 <==> exists|a: int|
                0 <= a < MEMORY_SIZE && #[trigger] (first->Ok_0.memory[a] & !s.memory[a]) != 0
        }),
{
    let ins = Instruction::Draw { x, y, n };
    let s1 = execute_spec(s, ins, rnd)->Ok_0;
    let s2 = execute_spec(s1, ins, rnd)->Ok_0;
    let (px, py) = ((s.v[x as int] % 64) as int, (s.v[y as int] % 32) as int);
    let (i, nn) = (s.i as int, n as int);
    lemma_draw_rows_is_xor(s.memory, i, px, py, nn, 0, false);
    assert(s1.v[x as int] == s.v[x as int] && s1.v[y as int] == s.v[y as int]);
    lemma_draw_rows_is_xor(s1.memory, i, px, py, nn, 0, false);
    assert forall|a: int| 0 <= a < MEMORY_SIZE implies #[trigger] sprite_mask(s1.memory, i, px, py, nn, 0, a)
        == sprite_mask(s.memory, i, px, py, nn, 0, a) by {
        if FRAMEBUFFER_START <= a {
            lemma_fb_split(a);
        }
        let r = (a - FRAMEBUFFER_START) / 8 - py;
        if a >= FRAMEBUFFER_START && a < MEMORY_SIZE && 0 <= r <= nn {
            let b = i + r;
            assert(b < FRAMEBUFFER_START);
            assert(s1.memory == draw_rows(s.memory, i, px, py, nn, 0, false).0);
            assert(draw_rows(s.memory, i, px, py, nn, 0, false).0[b] == s.memory[b]
                ^ sprite_mask(s.memory, i, px, py, nn, 0, b));
            assert(sprite_mask(s.memory, i, px, py, nn, 0, b) == 0);
            lemma_xor_facts(s.memory[b], 0, 0);
        }
    }
    assert forall|a: int| 0 <= a < MEMORY_SIZE implies {
        &&& #[trigger] s2.memory[a] == s.memory[a]
        &&& (s1.memory[a] & sprite_mask(s1.memory, i, px, py, nn, 0, a)) == (s1.memory[a] & !s.memory[a])
    } by {
        lemma_xor_facts(s.memory[a], sprite_mask(s.memory, i, px, py, nn, 0, a), 0);
    }
    assert(s2.memory =~= s.memory);
    if exists|a: int| 0 <= a < MEMORY_SIZE && #[trigger] (s1.memory[a] & !s.memory[a]) != 0 {
        let a = choose|a: int| 0 <= a < MEMORY_SIZE && #[trigger] (s1.memory[a] & !s.memory[a]) != 0;
        assert(s2.memory[a] == s.memory[a]);
    }
}

/// On a blank screen, drawing again a sprite whose first draw lit anything
/// reports a collision (`VF == 1`).
pub proof fn law_redraw_on_blank_screen_collides(s: Chip8Model, x: u8, y: u8, n: u8, rnd: u8)
    requires
        s.wf(),
        x < 15,
        y < 15,
        n < 16,
        s.i + last_row((s.v[y as int] % 32) as int, n as int) < FRAMEBUFFER_START,
        forall|a: int| FRAMEBUFFER_START <= a < MEMORY_SIZE ==> s.memory[a] == 0,
        execute_spec(s, Instruction::Draw { x, y, n }, rnd)->Ok_0.memory != s.memory,
    ensures
        execute_spec(
            execute_spec(s, Instruction::Draw { x, y, n }, rnd)->Ok_0,
            Instruction::Draw { x, y, n },
            rnd,
        )->Ok_0.v[15] == 1,
{
    let s1 = execute_spec(s, Instruction::Draw { x, y, n }, rnd)->Ok_0;
    law_draw_twice_restores(s, x, y, n, rnd);
    let (px, py) = ((s.v[x as int] % 64) as int, (s.v[y as int] % 32) as int);
    lemma_draw_rows_is_xor(s.memory, s.i as int, px, py, n as int, 0, false);
    assert(s1.memory.len() == s.memory.len());
    assert(s1.memory == draw_rows(s.memory, s.i as int, px, py, n as int, 0, false).0);
    assert(exists|a: int| 0 <= a < MEMORY_SIZE && s1.memory[a] != s.memory[a]) by {
        if forall|a: int| 0 <= a < MEMORY_SIZE ==> s1.memory[a] == s.memory[a] {
            assert(s1.memory =~= s.memory);
        }
    }
    let a = choose|a: int| 0 <= a < MEMORY_SIZE && s1.memory[a] != s.memory[a];
    assert(a >= FRAMEBUFFER_START) by {
        if a < FRAMEBUFFER_START {
            assert(draw_rows(s.memory, s.i as int, px, py, n as int, 0, false).0[a] == s.memory[a]
                ^ sprite_mask(s.memory, s.i as int, px, py, n as int, 0, a));
            lemma_xor_facts(s.memory[a], 0, 0);
        }
    }
    let b = s1.memory[a];
    assert(b & !0u8 == b) by (bit_vector);
    assert((s1.memory[a] & !s.memory[a]) != 0);
}

} // verus!
