//! Laws of the instruction set, stated and proved once and for all inputs.
//!
//! Each proof function here pins down a behaviour of the machine that spans
//! a whole family of instructions or several steps: what a register load
//! leaves untouched, how wrapping arithmetic and the carry flag behave, that
//! drawing is an involution, that call and return pair up, that the delay
//! timer only ever counts down by one, and that a block store followed by a
//! block load is the identity on the registers.

use crate::chip8::{fetch_ok, spec_step, word_at, Chip8View};
use crate::display::{collision, draw_result, sprite_pattern_byte};
use crate::instr::{lemma_decode_bounded, spec_decode, Instr};
use vstd::prelude::*;

verus! {

/// Law: a register-immediate load `6xkk` returns no error, sets `Vx` to `kk`
/// and changes no other register; memory, stack and the address register stay
/// as they were and the program counter moves exactly past the word.
pub proof fn lemma_load_immediate(m: Chip8View, rand: u8, x: u8, kk: u8)
    requires
        m.wf(),
        fetch_ok(m),
        spec_decode(word_at(m.mem, m.pc)) == (Instr::LdVxByte { x, kk }),
    ensures
        spec_step(m, rand).err is None,
        spec_step(m, rand).m.vregs[x as int] == kk,
        forall|j: int| 0 <= j < 16 && j != x ==> spec_step(m, rand).m.vregs[j] == m.vregs[j],
        spec_step(m, rand).m.pc == m.pc + 2,
        spec_step(m, rand).m.mem == m.mem,
        spec_step(m, rand).m.stack == m.stack,
        spec_step(m, rand).m.i == m.i,
{
    lemma_decode_bounded(word_at(m.mem, m.pc));
}

/// Law: the immediate add `7xkk` wraps modulo 256 and touches no register
/// but `Vx`; in particular it leaves the carry flag alone whenever `Vx` is
/// not `VF` itself.
pub proof fn lemma_add_immediate_wraps(m: Chip8View, rand: u8, x: u8, kk: u8)
    requires
        m.wf(),
        fetch_ok(m),
        spec_decode(word_at(m.mem, m.pc)) == (Instr::AddVxByte { x, kk }),
    ensures
        spec_step(m, rand).err is None,
        spec_step(m, rand).m.vregs[x as int] == ((m.vregs[x as int] + kk) % 256) as u8,
        forall|j: int| 0 <= j < 16 && j != x ==> spec_step(m, rand).m.vregs[j] == m.vregs[j],
{
    lemma_decode_bounded(word_at(m.mem, m.pc));
}

/// Law: the register add `8xy4` stores the wrapped sum in `Vx` and sets `VF`
/// to 1 exactly when the unsigned sum exceeds 255, for every target but `VF`
/// itself (an add into `VF` overwrites the flag with the sum).
pub proof fn lemma_add_registers_carry(m: Chip8View, rand: u8, x: u8, y: u8)
    requires
        m.wf(),
        fetch_ok(m),
        spec_decode(word_at(m.mem, m.pc)) == (Instr::AddVxVy { x, y }),
        x != 15,
    ensures
        spec_step(m, rand).err is None,
        spec_step(m, rand).m.vregs[15] == (if m.vregs[x as int] + m.vregs[y as int] > 255 {
            1u8
        } else {
            0u8
        }),
        spec_step(m, rand).m.vregs[x as int] == ((m.vregs[x as int] + m.vregs[y as int])
            % 256) as u8,
{
    lemma_decode_bounded(word_at(m.mem, m.pc));
}

proof fn u8_xor_involutive(a: u8, b: u8)
    ensures
        (a ^ b) ^ b == a,
{
    assert((a ^ b) ^ b == a) by (bit_vector);
}

proof fn u8_and_not_zero(a: u8)
    ensures
        a & !0u8 == a,
{
    assert(a & !0u8 == a) by (bit_vector);
}

/// Law: drawing is XOR, so the same sprite drawn twice at the same spot
/// leaves the framebuffer exactly as it was, whatever was on it.
pub proof fn lemma_draw_twice_restores(fb: Seq<u8>, s: Seq<u8>, vx: u8, vy: u8)
    requires
        fb.len() == 256,
    ensures
        draw_result(draw_result(fb, s, vx, vy), s, vx, vy) == fb,
{
    let twice = draw_result(draw_result(fb, s, vx, vy), s, vx, vy);
    assert forall|k: int| 0 <= k < 256 implies twice[k] == fb[k] by {
        u8_xor_involutive(fb[k], sprite_pattern_byte(s, vx, vy, k));
    }
    assert(twice =~= fb);
}

/// Law: on a blank screen, drawing a sprite twice at the same spot returns
/// the framebuffer to all-zero, and the second draw reports a collision
/// exactly when the first draw lit some pixel.
pub proof fn lemma_draw_twice_on_blank(s: Seq<u8>, vx: u8, vy: u8)
    ensures
        ({
            let blank = Seq::new(256, |k: int| 0u8);
            let once = draw_result(blank, s, vx, vy);
            let twice = draw_result(once, s, vx, vy);
            twice == blank && collision(once, twice) == (once != blank)
        }),
{
    let blank = Seq::new(256, |k: int| 0u8);
    let once = draw_result(blank, s, vx, vy);
    let twice = draw_result(once, s, vx, vy);
    lemma_draw_twice_restores(blank, s, vx, vy);
    if once == blank {
        assert forall|k: int| 0 <= k < 256 implies once[k] & !twice[k] == 0 by {
            u8_and_not_zero(once[k]);
        }
        assert(!collision(once, twice));
    } else {
        assert(!(once =~= blank));
        let k = choose|k: int| 0 <= k < 256 && once[k] != blank[k];
        assert(once[k] != 0);
        u8_and_not_zero(once[k]);
        assert(once[k] & !twice[k] != 0);
        assert(collision(once, twice));
    }
}

/// Law: two successive draw instructions of the same sprite at the same
/// location, executed from a blank screen, leave the screen blank again, and
/// the second reports a collision in `VF` exactly when the first draw lit
/// some pixel.
///
/// The sprite must not sit in the display region (the first draw would change
/// it), the two words must sit below the display region (a draw writes
/// nothing else), and neither coordinate register may be `VF`, which the
/// first draw overwrites with its collision flag.
pub proof fn lemma_draw_twice_steps(m: Chip8View, x: u8, y: u8, n: u8, r1: u8, r2: u8)
    requires
        m.wf(),
        m.pc + 4 <= 0xF00,
        x < 15 && y < 15 && n < 16,
        m.i + n <= 0xF00,
        spec_decode(word_at(m.mem, m.pc)) == (Instr::DrwVxVyN { x, y, n }),
        spec_decode(word_at(m.mem, m.pc + 2)) == (Instr::DrwVxVyN { x, y, n }),
        forall|a: int| 0xF00 <= a < 0x1000 ==> m.mem[a] == 0u8,
    ensures
        spec_step(m, r1).err is None,
        spec_step(spec_step(m, r1).m, r2).err is None,
        forall|a: int|
            0xF00 <= a < 0x1000 ==> spec_step(spec_step(m, r1).m, r2).m.mem[a] == 0u8,
        spec_step(spec_step(m, r1).m, r2).m.vregs[15] == (if spec_step(m, r1).m.mem.subrange(
            0xF00,
            0x1000,
        ) != m.mem.subrange(0xF00, 0x1000) {
            1u8
        } else {
            0u8
        }),
{
    let blank = Seq::new(256, |k: int| 0u8);
    let fb0 = m.mem.subrange(0xF00, 0x1000);
    assert(fb0 =~= blank);
    let vx = m.vregs[x as int];
    let vy = m.vregs[y as int];
    let sprite = m.mem.subrange(m.i, m.i + n);
    let m1 = spec_step(m, r1).m;
    let once = draw_result(fb0, sprite, vx, vy);
    // The first draw writes only the display region: the second word and the
    // sprite bytes survive it, and its registers but `VF` survive too.
    assert(m1.mem[m.pc + 2] == m.mem[m.pc + 2]);
    assert(m1.mem[m.pc + 3] == m.mem[m.pc + 3]);
    assert(word_at(m1.mem, m1.pc) == word_at(m.mem, m.pc + 2));
    assert(m1.mem.subrange(m1.i, m1.i + n) =~= sprite);
    assert(m1.vregs[x as int] == vx && m1.vregs[y as int] == vy);
    let fb1 = m1.mem.subrange(0xF00, 0x1000);
    assert(fb1 =~= once);
    let m2 = spec_step(m1, r2).m;
    lemma_draw_twice_on_blank(sprite, vx, vy);
    let twice = draw_result(once, sprite, vx, vy);
    assert forall|a: int| 0xF00 <= a < 0x1000 implies m2.mem[a] == 0u8 by {
        assert(m2.mem[a] == twice[a - 0xF00]);
        assert(twice[a - 0xF00] == blank[a - 0xF00]);
    }
    assert(collision(once, twice) == (once != blank));
    assert(fb1 != fb0 ==> once != blank);
    assert(once != blank ==> fb1 != fb0) by {
        if once != blank {
            assert(!(once =~= blank));
            let k = choose|k: int| 0 <= k < 256 && once[k] != blank[k];
            assert(fb1[k] == once[k] && fb0[k] == blank[k]);
        }
    }
}

/// Law: a call whose target holds a return brings the program counter to the
/// instruction just after the call, and the stack back to its depth before
/// the call, whatever it held.
pub proof fn lemma_call_return(m: Chip8View, nnn: u16, r1: u8, r2: u8)
    requires
        m.wf(),
        fetch_ok(m),
        spec_decode(word_at(m.mem, m.pc)) == (Instr::Call { nnn }),
        spec_decode(word_at(m.mem, nnn as int)) == Instr::Ret,
        m.stack.len() < 48,
    ensures
        spec_step(m, r1).err is None,
        spec_step(spec_step(m, r1).m, r2).err is None,
        spec_step(spec_step(m, r1).m, r2).m.pc == m.pc + 2,
        spec_step(spec_step(m, r1).m, r2).m.stack == m.stack,
{
    let m1 = spec_step(m, r1).m;
    assert(m1.pc == nnn as int);
    assert(m1.stack == m.stack.push(((m.pc + 2) as u16)));
    let m2 = spec_step(m1, r2).m;
    assert(m2.pc == m.pc + 2);
    assert(m2.stack =~= m.stack);
}

/// Law: every step ticks the delay timer down by exactly one, floored at
/// zero, unless the fetched instruction is the delay-timer write `Fx15`; in
/// particular the timer never goes negative and never wraps.
pub proof fn lemma_delay_timer_ticks(m: Chip8View, rand: u8)
    requires
        m.wf(),
        !(spec_decode(word_at(m.mem, m.pc)) is LdDtVx),
    ensures
        spec_step(m, rand).m.delay == (if m.delay > 0 {
            m.delay - 1
        } else {
            0
        }),
{
}

/// Law: the sound timer obeys the same countdown, but for its own write
/// `Fx18`.
pub proof fn lemma_sound_timer_ticks(m: Chip8View, rand: u8)
    requires
        m.wf(),
        !(spec_decode(word_at(m.mem, m.pc)) is LdStVx),
    ensures
        spec_step(m, rand).m.sound == (if m.sound > 0 {
            m.sound - 1
        } else {
            0
        }),
{
}

/// Law: storing `V0..Vx` with `Fx55` and loading the same range back with
/// `Fx65` reproduces every register bit for bit, and leaves the stored bytes
/// in memory, provided the stored range does not overwrite the load
/// instruction itself.
pub proof fn lemma_store_load_round_trip(m: Chip8View, x: u8, r1: u8, r2: u8)
    requires
        m.wf(),
        m.pc + 4 <= 4096,
        x < 16,
        m.i + x + 1 <= 4096,
        spec_decode(word_at(m.mem, m.pc)) == (Instr::LdMemVx { x }),
        spec_decode(word_at(m.mem, m.pc + 2)) == (Instr::LdVxMem { x }),
        m.i + x < m.pc + 2 || m.i > m.pc + 3,
    ensures
        spec_step(m, r1).err is None,
        spec_step(spec_step(m, r1).m, r2).err is None,
        spec_step(spec_step(m, r1).m, r2).m.vregs == m.vregs,
        forall|a: int|
            m.i <= a <= m.i + x ==> spec_step(spec_step(m, r1).m, r2).m.mem[a] == m.vregs[a
                - m.i],
{
    let m1 = spec_step(m, r1).m;
    assert(m1.mem[m.pc + 2] == m.mem[m.pc + 2]);
    assert(m1.mem[m.pc + 3] == m.mem[m.pc + 3]);
    assert(word_at(m1.mem, m1.pc) == word_at(m.mem, m.pc + 2));
    let m2 = spec_step(m1, r2).m;
    assert forall|r: int| 0 <= r < 16 implies m2.vregs[r] == m.vregs[r] by {
        if r <= x {
            assert(m1.mem[m.i + r] == m.vregs[r]);
        }
    }
    assert(m2.vregs =~= m.vregs);
}

} // verus!
