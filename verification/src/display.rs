//! The display engine.
//!
//! The screen is a 64x32 monochrome bitmap packed one bit per pixel, row
//! major, 8 pixels per byte: 256 bytes in all.  Sprites are 8 pixels wide and
//! 1 to 15 rows tall and are XORed onto the screen, so drawing the same
//! sprite twice at the same spot erases it.  Rows that fall below the screen
//! and pixels that fall past its right edge are clipped: they are silently
//! skipped, never wrapped.  A draw reports a collision when some pixel went
//! from set to unset.

use vstd::prelude::*;

verus! {

/// Screen width in pixels.
pub const DISPLAY_WIDTH: usize = 64;

/// Screen height in pixels.
pub const DISPLAY_HEIGHT: usize = 32;

/// Bytes in the packed framebuffer: 64 * 32 / 8.
pub const DISPLAY_SIZE: usize = 256;

/// What an 8-pixel sprite row contributes to framebuffer byte `k`, counting
/// only the first `rows` sprite rows.
///
/// The row drawn at screen row `r` touches the bytes of that row only; within
/// it, the byte holding pixel column `vx` takes the sprite byte shifted right
/// by `vx % 8`, and, when the row is not byte-aligned, the following byte of
/// the same screen row takes the remaining bits, shifted left by `8 - vx % 8`.
/// Everything else - sprites placed at or past column 64, rows at or past row
/// 32 (that is, bytes `k >= 256`), spill past the right screen edge - is
/// clipped and contributes nothing.
pub open spec fn pattern_byte_upto(s: Seq<u8>, vx: u8, vy: u8, k: int, rows: int) -> u8 {
    let col = k % 8;
    let j = k / 8 - vy;
    let xbyte = vx as int / 8;
    let off = vx as int % 8;
    if vx < 64 && 0 <= j < rows && j < s.len() {
        if col == xbyte {
            s[j] >> (off as u8)
        } else if off != 0 && col == xbyte + 1 {
            s[j] << ((8 - off) as u8)
        } else {
            0
        }
    } else {
        0
    }
}

/// What a whole sprite placed at `(vx, vy)` contributes to framebuffer byte
/// `k`.
pub open spec fn sprite_pattern_byte(s: Seq<u8>, vx: u8, vy: u8, k: int) -> u8 {
    pattern_byte_upto(s, vx, vy, k, s.len() as int)
}

/// The framebuffer after XORing sprite `s` onto `fb` at `(vx, vy)`.
pub open spec fn draw_result(fb: Seq<u8>, s: Seq<u8>, vx: u8, vy: u8) -> Seq<u8> {
    Seq::new(256, |k: int| fb[k] ^ sprite_pattern_byte(s, vx, vy, k))
}

/// Some pixel that was set in `pre` is unset in `post`.
pub open spec fn collision(pre: Seq<u8>, post: Seq<u8>) -> bool {
    exists|k: int| 0 <= k < pre.len() && pre[k] & !post[k] != 0
}

proof fn lemma_xor_zero(a: u8)
    ensures
        a ^ 0 == a,
{
    assert(a ^ 0 == a) by (bit_vector);
}

/// XOR the sprite `s` onto the 256-byte framebuffer `fb` at pixel coordinates
/// `(vx, vy)`, clipping at the screen edges, and report whether some pixel
/// was erased.
pub fn draw_sprite(fb: &mut Vec<u8>, s: &Vec<u8>, vx: u8, vy: u8) -> (erased: bool)
    requires
        old(fb)@.len() == 256,
        s@.len() <= 15,
    ensures
        final(fb)@ == draw_result(old(fb)@, s@, vx, vy),
        erased == collision(old(fb)@, final(fb)@),
{
    let ghost fb0 = fb@;
    let snapshot = copy_bytes(fb);
    proof {
        assert forall|k: int| 0 <= k < 256 implies fb@[k] == (fb0[k] ^ pattern_byte_upto(
            s@,
            vx,
            vy,
            k,
            0,
        )) by {
            lemma_xor_zero(fb0[k]);
        }
    }
    let mut j: usize = 0;
    while j < s.len()
        invariant
            fb@.len() == 256,
            s@.len() <= 15,
            j <= s@.len(),
            forall|k: int|
                0 <= k < 256 ==> fb@[k] == (fb0[k] ^ pattern_byte_upto(s@, vx, vy, k, j as int)),
        decreases s@.len() - j,
    {
        let row = s[j];
        let r = vy as usize + j;
        if vx < 64 && r < 32 {
            let xbyte = (vx / 8) as usize;
            let off = vx % 8;
            let k1 = r * 8 + xbyte;
            let shifted_right = row >> off;
            let cur1 = fb[k1];
            fb.set(k1, cur1 ^ shifted_right);
            proof {
                lemma_xor_zero(fb0[k1 as int]);
            }
            if off != 0 && xbyte + 1 < 8 {
                let k2 = k1 + 1;
                let shifted_left = row << (8 - off);
                let cur2 = fb[k2];
                fb.set(k2, cur2 ^ shifted_left);
                proof {
                    lemma_xor_zero(fb0[k2 as int]);
                }
            }
        }
        proof {
            assert forall|k: int| 0 <= k < 256 implies fb@[k] == (fb0[k] ^ pattern_byte_upto(
                s@,
                vx,
                vy,
                k,
                j + 1,
            )) by {
                if k / 8 - vy != j {
                    assert(pattern_byte_upto(s@, vx, vy, k, j + 1) == pattern_byte_upto(
                        s@,
                        vx,
                        vy,
                        k,
                        j as int,
                    ));
                } else {
                    assert(pattern_byte_upto(s@, vx, vy, k, j as int) == 0);
                }
            }
        }
        j += 1;
    }
    proof {
        assert(fb@ =~= draw_result(fb0, s@, vx, vy));
    }
    any_bit_erased(&snapshot, fb)
}

/// A byte-for-byte copy of `v`.
fn copy_bytes(v: &Vec<u8>) -> (r: Vec<u8>)
    ensures
        r@ == v@,
{
    let mut r: Vec<u8> = Vec::new();
    let mut k: usize = 0;
    while k < v.len()
        invariant
            k <= v@.len(),
            r@ == v@.take(k as int),
        decreases v@.len() - k,
    {
        r.push(v[k]);
        proof {
            assert(r@ =~= v@.take(k + 1));
        }
        k += 1;
    }
    proof {
        assert(v@.take(v@.len() as int) =~= v@);
    }
    r
}

/// Whether some bit that is set in `pre` is unset in `post`.
fn any_bit_erased(pre: &Vec<u8>, post: &Vec<u8>) -> (r: bool)
    requires
        pre@.len() == post@.len(),
    ensures
        r == collision(pre@, post@),
{
    let mut k: usize = 0;
    while k < pre.len()
        invariant
            pre@.len() == post@.len(),
            k <= pre@.len(),
            forall|m: int| 0 <= m < k ==> (pre@[m] & !post@[m]) == 0,
        decreases pre@.len() - k,
    {
        if pre[k] & !post[k] != 0 {
            return true;
        }
        k += 1;
    }
    false
}

/// Set the pixel at `(x, y)` of a packed bitmap to 1; report whether it
/// flipped (it was 0 before).
pub fn set_pixel(v: &mut Vec<u8>, x: u8, y: u8) -> (flipped: bool)
    requires
        (x as int) / 8 + (y as int) * 8 < old(v)@.len(),
    ensures
        flipped == (old(v)@[x as int / 8 + y as int * 8] & (1u8 << ((7 - x as int % 8) as u8))
            == 0),
        final(v)@ == (if flipped {
            old(v)@.update(
                x as int / 8 + y as int * 8,
                old(v)@[x as int / 8 + y as int * 8] | (1u8 << ((7 - x as int % 8) as u8)),
            )
        } else {
            old(v)@
        }),
{
    let byte = (x / 8) as usize + (y as usize) * 8;
    let bit = x % 8;
    let mask = 1u8 << (7 - bit);
    let read_byte = v[byte];
    if read_byte & mask == 0 {
        v.set(byte, read_byte | mask);
        true
    } else {
        false
    }
}

/// Set the pixel at `(x, y)` of a packed bitmap to 0; report whether it
/// flipped (it was 1 before).
pub fn unset_pixel(v: &mut Vec<u8>, x: u8, y: u8) -> (flipped: bool)
    requires
        (x as int) / 8 + (y as int) * 8 < old(v)@.len(),
    ensures
        flipped == (old(v)@[x as int / 8 + y as int * 8] & (1u8 << ((7 - x as int % 8) as u8))
            != 0),
        final(v)@ == (if flipped {
            old(v)@.update(
                x as int / 8 + y as int * 8,
                old(v)@[x as int / 8 + y as int * 8] & !(1u8 << ((7 - x as int % 8) as u8)),
            )
        } else {
            old(v)@
        }),
{
    let byte = (x / 8) as usize + (y as usize) * 8;
    let bit = x % 8;
    let mask = 1u8 << (7 - bit);
    let read_byte = v[byte];
    if read_byte & mask != 0 {
        v.set(byte, read_byte & !mask);
        true
    } else {
        false
    }
}

/// Pack three colour channels into one `0x00RRGGBB` word.
pub fn from_u8_rgb(r: u8, g: u8, b: u8) -> (c: u32)
    ensures
        c == r as int * 0x10000 + g as int * 0x100 + b as int,
{
    let (r32, g32, b32) = (r as u32, g as u32, b as u32);
    let c = (r32 << 16) | (g32 << 8) | b32;
    proof {
        assert(r32 < 0x100 && g32 < 0x100 && b32 < 0x100 ==> ((r32 << 16) | (g32 << 8) | b32)
            == r32 * 0x10000 + g32 * 0x100 + b32) by (bit_vector);
    }
    c
}

/// White when the masked bit of `v` is set, black otherwise.
pub fn white_or_black(v: u8, mask: u8) -> (c: u32)
    ensures
        c == (if v & mask == 0 {
            0u32
        } else {
            0xFFFFFFu32
        }),
{
    let white: u32 = from_u8_rgb(0xFF, 0xFF, 0xFF);
    let black: u32 = from_u8_rgb(0, 0, 0);
    if v & mask == 0 {
        black
    } else {
        white
    }
}

/// Expand a packed 256-byte framebuffer into one colour word per pixel,
/// white for set bits and black for unset ones, in row-major pixel order.
pub fn to_rgb_buffer(buffer: &Vec<u8>) -> (r: Vec<u32>)
    requires
        buffer@.len() == 256,
    ensures
        r@.len() == 2048,
        forall|p: int|
            0 <= p < 2048 ==> r@[p] == (if buffer@[p / 8] & (0x80u8 >> ((p % 8) as u8)) == 0 {
                0u32
            } else {
                0xFFFFFFu32
            }),
{
    let mut r: Vec<u32> = Vec::new();
    let mut p: usize = 0;
    while p < 2048
        invariant
            buffer@.len() == 256,
            p <= 2048,
            r@.len() == p,
            forall|q: int|
                0 <= q < p ==> r@[q] == (if buffer@[q / 8] & (0x80u8 >> ((q % 8) as u8)) == 0 {
                    0u32
                } else {
                    0xFFFFFFu32
                }),
        decreases 2048 - p,
    {
        let mask = 0x80u8 >> ((p % 8) as u8);
        r.push(white_or_black(buffer[p / 8], mask));
        p += 1;
    }
    r
}

} // verus!
