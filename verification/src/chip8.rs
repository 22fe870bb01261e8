//! The machine state and the execution engine.
//!
//! Memory layout of the 4096-byte address space:
//! - `[0x000, 0x050)`: the font table, 16 glyphs of 5 bytes each;
//! - `[0x200, 0xEA0)`: the program area, `0x200` is the entry point;
//! - `[0xF00, 0x1000)`: the packed monochrome framebuffer, 256 bytes.
//!
//! Besides memory the machine owns sixteen byte registers `V0..VF` (`VF`
//! doubles as the flags register), the 12-bit address register `I`, the
//! program counter, a call stack of return addresses, two countdown timers
//! and sixteen keyboard flags.
//!
//! `step` is the sole transition function: it fetches the word at the program
//! counter, advances the counter by 2 before dispatch, ticks both timers down
//! by at most one, and executes the decoded instruction.  Its entire effect
//! on the machine is pinned down by the specification function `spec_step`.

use crate::display::{collision, draw_result, DISPLAY_SIZE};
use crate::instr::{fields_bounded, spec_decode, Instr};
use vstd::prelude::*;

verus! {

/// Bytes of memory.
pub const MEMSIZE: usize = 4096;

/// Where execution starts and ROM images are loaded.
pub const ENTRY_POINT: usize = 0x200;

/// Where the font table sits.
pub const FONTS_OFFSET: usize = 0x0;

/// Bytes per font glyph.
pub const FONTS_HEIGHT: usize = 5;

/// Bytes of the whole font table: 16 glyphs of 5 bytes.
pub const FONTS_SIZE: usize = 80;

/// First address past the program area; a ROM may not reach it.
pub const PROGRAM_END: usize = 0xEA0;

/// Where the packed framebuffer sits in memory.
pub const DISPLAY_OFFSET: usize = 0xF00;

/// Number of data registers.
pub const VREGS_SIZE: usize = 16;

/// Bytes per instruction word.
pub const OPCODE_SIZE: usize = 2;

/// Number of keys on the hex keyboard.
pub const KEYBOARD_SIZE: usize = 16;

/// Most return addresses the call stack will hold, matching the 96 bytes the
/// classic layout reserves for two-byte stack slots.
pub const STACK_DEPTH: usize = 48;

/// Everything that can end an emulation run.
#[derive(Clone, Copy, Debug, PartialEq, Eq, Structural)]
pub enum Chip8Error {
    /// The decoded word has no defined mapping; carries the raw word.
    UnknownOpcode(u16),
    /// `Fx29` asked for the font glyph of a value of 16 or more.
    UndefinedHexadecimal(u16),
    /// A call was executed with the stack already at its depth limit.
    StackOverflow,
    /// A return was executed with no pending call.
    StackUnderflow,
    /// A register index of 16 or more was passed in.
    VregsOverflow,
    /// The ROM image runs past the program area.
    MemoryFull,
    /// A keyboard opcode named a key index of 16 or more.
    WrongKey,
}

/// The mathematical model of the machine: every field as a plain sequence or
/// integer.
#[verifier::ext_equal]
pub ghost struct Chip8View {
    /// The 4096 bytes of memory, framebuffer included.
    pub mem: Seq<u8>,
    /// The program counter.
    pub pc: int,
    /// The call stack of return addresses, oldest first.
    pub stack: Seq<u16>,
    /// The sixteen data registers.
    pub vregs: Seq<u8>,
    /// The address register `I`.
    pub i: int,
    /// The delay timer.
    pub delay: int,
    /// The sound timer.
    pub sound: int,
    /// The sixteen key-pressed flags.
    pub keys: Seq<bool>,
}

impl Chip8View {
    /// The machine's internal invariant: the fixed sizes of its parts, the
    /// 12-bit range of `I`, the byte range of both timers, and a program
    /// counter within the 16-bit range that a stored return address can hold.
    pub open spec fn wf(self) -> bool {
        &&& self.mem.len() == 4096
        &&& self.vregs.len() == 16
        &&& self.keys.len() == 16
        &&& self.stack.len() <= 48
        &&& 0 <= self.pc <= 0xFFFF
        &&& 0 <= self.i < 0x1000
        &&& 0 <= self.delay <= 255
        &&& 0 <= self.sound <= 255
    }
}

/// The machine as constructed: memory and registers all zero, stack empty,
/// timers zero, no key pressed, the program counter at the entry point.
pub open spec fn initial_state() -> Chip8View {
    Chip8View {
        mem: Seq::new(4096, |a: int| 0u8),
        pc: 0x200,
        stack: Seq::empty(),
        vregs: Seq::new(16, |x: int| 0u8),
        i: 0,
        delay: 0,
        sound: 0,
        keys: Seq::new(16, |k: int| false),
    }
}

/// One timer tick: down one, floored at zero.
pub open spec fn tick(t: int) -> int {
    if t > 0 {
        t - 1
    } else {
        0
    }
}

/// The big-endian 16-bit word at address `a`.
pub open spec fn word_at(mem: Seq<u8>, a: int) -> u16 {
    (mem[a] * 256 + mem[a + 1]) as u16
}

/// A machine state paired with the error, if any, that the instruction
/// raised.  On an error the state still reflects the fetch: the program
/// counter has advanced past the faulting word and both timers have ticked.
pub ghost struct StepOutcome {
    /// The machine after the instruction.
    pub m: Chip8View,
    /// What ended the run, if anything did.
    pub err: Option<Chip8Error>,
}

/// An outcome's error as the `Result` that `step` returns.
pub open spec fn as_result(err: Option<Chip8Error>) -> Result<(), Chip8Error> {
    match err {
        None => Ok(()),
        Some(e) => Err(e),
    }
}

/// Memory with the display region zeroed.
pub open spec fn clear_display_spec(mem: Seq<u8>) -> Seq<u8> {
    Seq::new(4096, |a: int| if 0xF00 <= a { 0u8 } else { mem[a] })
}

/// Memory with the display region replaced by `fb`.
pub open spec fn write_fb_spec(mem: Seq<u8>, fb: Seq<u8>) -> Seq<u8> {
    Seq::new(4096, |a: int| if 0xF00 <= a { fb[a - 0xF00] } else { mem[a] })
}

/// Memory with registers `V0..Vx` stored at `[i, i+x]`.
pub open spec fn store_regs_spec(mem: Seq<u8>, vregs: Seq<u8>, i: int, x: u8) -> Seq<u8> {
    Seq::new(4096, |a: int| if i <= a <= i + x { vregs[a - i] } else { mem[a] })
}

/// Registers with `V0..Vx` loaded from `[i, i+x]`.
pub open spec fn load_regs_spec(vregs: Seq<u8>, mem: Seq<u8>, i: int, x: u8) -> Seq<u8> {
    Seq::new(16, |r: int| if r <= x { mem[i + r] } else { vregs[r] })
}

/// The effect of one decoded instruction on a machine whose program counter
/// has already advanced past it and whose timers have already ticked.
///
/// This is the documented CHIP-8 opcode table as a total function; the few
/// quirks of flag handling are deliberate: the flag register `VF` is written
/// *before* the result register on the arithmetic opcodes that produce a
/// flag, so an instruction that targets `VF` itself computes from the flag.
pub open spec fn spec_exec(m: Chip8View, ins: Instr, rand: u8) -> StepOutcome {
    let v = m.vregs;
    match ins {
        Instr::Cls => StepOutcome {
            m: Chip8View { mem: clear_display_spec(m.mem), ..m },
            err: None,
        },
        Instr::Ret => {
            if m.stack.len() == 0 {
                StepOutcome { m, err: Some(Chip8Error::StackUnderflow) }
            } else {
                StepOutcome {
                    m: Chip8View {
                        pc: m.stack.last() as int,
                        stack: m.stack.drop_last(),
                        ..m
                    },
                    err: None,
                }
            }
        },
        Instr::Sys { .. } => StepOutcome { m, err: None },
        Instr::Jp { nnn } => StepOutcome { m: Chip8View { pc: nnn as int, ..m }, err: None },
        Instr::Call { nnn } => {
            if m.stack.len() >= 48 {
                StepOutcome { m, err: Some(Chip8Error::StackOverflow) }
            } else {
                StepOutcome {
                    m: Chip8View {
                        pc: nnn as int,
                        stack: m.stack.push((m.pc as u16)),
                        ..m
                    },
                    err: None,
                }
            }
        },
        Instr::SeVxByte { x, kk } => StepOutcome {
            m: Chip8View {
                pc: if v[x as int] == kk {
                    m.pc + 2
                } else {
                    m.pc
                },
                ..m
            },
            err: None,
        },
        Instr::SneVxByte { x, kk } => StepOutcome {
            m: Chip8View {
                pc: if v[x as int] != kk {
                    m.pc + 2
                } else {
                    m.pc
                },
                ..m
            },
            err: None,
        },
        Instr::SeVxVy { x, y } => StepOutcome {
            m: Chip8View {
                pc: if v[x as int] == v[y as int] {
                    m.pc + 2
                } else {
                    m.pc
                },
                ..m
            },
            err: None,
        },
        Instr::SneVxVy { x, y } => StepOutcome {
            m: Chip8View {
                pc: if v[x as int] != v[y as int] {
                    m.pc + 2
                } else {
                    m.pc
                },
                ..m
            },
            err: None,
        },
        Instr::LdVxByte { x, kk } => StepOutcome {
            m: Chip8View { vregs: v.update(x as int, kk), ..m },
            err: None,
        },
        Instr::AddVxByte { x, kk } => StepOutcome {
            m: Chip8View {
                vregs: v.update(x as int, ((v[x as int] + kk) % 256) as u8),
                ..m
            },
            err: None,
        },
        Instr::LdVxVy { x, y } => StepOutcome {
            m: Chip8View { vregs: v.update(x as int, v[y as int]), ..m },
            err: None,
        },
        Instr::OrVxVy { x, y } => StepOutcome {
            m: Chip8View { vregs: v.update(x as int, v[x as int] | v[y as int]), ..m },
            err: None,
        },
        Instr::AndVxVy { x, y } => StepOutcome {
            m: Chip8View { vregs: v.update(x as int, v[x as int] & v[y as int]), ..m },
            err: None,
        },
        Instr::XorVxVy { x, y } => StepOutcome {
            m: Chip8View { vregs: v.update(x as int, v[x as int] ^ v[y as int]), ..m },
            err: None,
        },
        Instr::AddVxVy { x, y } => {
            let sum = v[x as int] + v[y as int];
            let flagged = v.update(15, if sum > 255 { 1u8 } else { 0u8 });
            StepOutcome {
                m: Chip8View { vregs: flagged.update(x as int, (sum % 256) as u8), ..m },
                err: None,
            }
        },
        Instr::SubVxVy { x, y } => {
            let flagged = v.update(15, if v[x as int] > v[y as int] { 1u8 } else { 0u8 });
            let diff = ((flagged[x as int] - flagged[y as int] + 256) % 256) as u8;
            StepOutcome {
                m: Chip8View { vregs: flagged.update(x as int, diff), ..m },
                err: None,
            }
        },
        Instr::ShrVx { x, .. } => {
            let flagged = v.update(15, v[x as int] & 1);
            StepOutcome {
                m: Chip8View {
                    vregs: flagged.update(x as int, (flagged[x as int] / 2) as u8),
                    ..m
                },
                err: None,
            }
        },
        Instr::SubnVxVy { x, y } => {
            let flagged = v.update(15, if v[y as int] > v[x as int] { 1u8 } else { 0u8 });
            let diff = ((flagged[y as int] - flagged[x as int] + 256) % 256) as u8;
            StepOutcome {
                m: Chip8View { vregs: flagged.update(x as int, diff), ..m },
                err: None,
            }
        },
        Instr::ShlVx { x, .. } => {
            let flagged = v.update(15, if v[x as int] & 0x80 == 0x80 { 1u8 } else { 0u8 });
            StepOutcome {
                m: Chip8View {
                    vregs: flagged.update(x as int, ((flagged[x as int] * 2) % 256) as u8),
                    ..m
                },
                err: None,
            }
        },
        Instr::LdI { nnn } => StepOutcome { m: Chip8View { i: nnn as int, ..m }, err: None },
        Instr::JpV0 { nnn } => StepOutcome {
            m: Chip8View { pc: nnn + v[0], ..m },
            err: None,
        },
        Instr::RndVxByte { x, kk } => StepOutcome {
            m: Chip8View { vregs: v.update(x as int, rand & kk), ..m },
            err: None,
        },
        Instr::DrwVxVyN { x, y, n } => {
            let vx = v[x as int];
            let vy = v[y as int];
            let sprite = m.mem.subrange(m.i, m.i + n);
            let fb = m.mem.subrange(0xF00, 0x1000);
            let nfb = draw_result(fb, sprite, vx, vy);
            let flag: u8 = if collision(fb, nfb) {
                1
            } else {
                0
            };
            StepOutcome {
                m: Chip8View {
                    mem: write_fb_spec(m.mem, nfb),
                    vregs: v.update(15, flag),
                    ..m
                },
                err: None,
            }
        },
        Instr::SkpVx { x } => {
            let key = v[x as int];
            if key >= 16 {
                StepOutcome { m, err: Some(Chip8Error::WrongKey) }
            } else {
                StepOutcome {
                    m: Chip8View {
                        pc: if m.keys[key as int] {
                            m.pc + 2
                        } else {
                            m.pc
                        },
                        ..m
                    },
                    err: None,
                }
            }
        },
        Instr::SknpVx { x } => {
            let key = v[x as int];
            if key >= 16 {
                StepOutcome { m, err: Some(Chip8Error::WrongKey) }
            } else {
                StepOutcome {
                    m: Chip8View {
                        pc: if !m.keys[key as int] {
                            m.pc + 2
                        } else {
                            m.pc
                        },
                        ..m
                    },
                    err: None,
                }
            }
        },
        Instr::LdVxDt { x } => StepOutcome {
            m: Chip8View { vregs: v.update(x as int, m.delay as u8), ..m },
            err: None,
        },
        Instr::LdDtVx { x } => StepOutcome {
            m: Chip8View { delay: v[x as int] as int, ..m },
            err: None,
        },
        Instr::LdStVx { x } => StepOutcome {
            m: Chip8View { sound: v[x as int] as int, ..m },
            err: None,
        },
        Instr::AddIVx { x } => StepOutcome {
            m: Chip8View { i: (m.i + v[x as int]) % 4096, ..m },
            err: None,
        },
        Instr::LdFVx { x } => {
            if v[x as int] >= 16 {
                StepOutcome {
                    m,
                    err: Some(Chip8Error::UndefinedHexadecimal(v[x as int] as u16)),
                }
            } else {
                StepOutcome { m: Chip8View { i: 5 * v[x as int], ..m }, err: None }
            }
        },
        Instr::LdBVx { x } => {
            let vx = v[x as int];
            StepOutcome {
                m: Chip8View {
                    mem: m.mem.update(m.i, ((vx / 100) % 10) as u8).update(
                        m.i + 1,
                        ((vx / 10) % 10) as u8,
                    ).update(m.i + 2, (vx % 10) as u8),
                    ..m
                },
                err: None,
            }
        },
        Instr::LdMemVx { x } => StepOutcome {
            m: Chip8View { mem: store_regs_spec(m.mem, v, m.i, x), ..m },
            err: None,
        },
        Instr::LdVxMem { x } => StepOutcome {
            m: Chip8View { vregs: load_regs_spec(v, m.mem, m.i, x), ..m },
            err: None,
        },
        Instr::Unknown { w } => StepOutcome { m, err: Some(Chip8Error::UnknownOpcode(w)) },
    }
}

/// The machine after the fetch itself: the program counter has moved past the
/// word and both timers have ticked, dispatch not yet applied.
pub open spec fn ticked(m: Chip8View) -> Chip8View {
    Chip8View { pc: m.pc + 2, delay: tick(m.delay), sound: tick(m.sound), ..m }
}

/// The full effect of one `step` call: fetch the word at the program counter,
/// advance it by 2, tick both timers, then dispatch the decoded instruction.
pub open spec fn spec_step(m: Chip8View, rand: u8) -> StepOutcome {
    spec_exec(ticked(m), spec_decode(word_at(m.mem, m.pc)), rand)
}

/// The fetch reads inside memory.
pub open spec fn fetch_ok(m: Chip8View) -> bool {
    m.pc + 2 <= 4096
}

/// The instruction's own memory accesses stay inside the address space.
/// Only the sprite fetch of a draw, the three-byte write of the BCD store and
/// the block store/load ranges can run past it.
pub open spec fn exec_safe(m: Chip8View, ins: Instr) -> bool {
    match ins {
        Instr::DrwVxVyN { n, .. } => m.i + n <= 4096,
        Instr::LdBVx { .. } => m.i + 3 <= 4096,
        Instr::LdMemVx { x } => m.i + x + 1 <= 4096,
        Instr::LdVxMem { x } => m.i + x + 1 <= 4096,
        _ => true,
    }
}

/// `step` neither fetches nor touches memory out of bounds from this state.
/// The host is expected to test this (through `can_step`) before stepping.
pub open spec fn step_safe(m: Chip8View) -> bool {
    fetch_ok(m) && exec_safe(m, spec_decode(word_at(m.mem, m.pc)))
}

/// The font table: 16 glyphs for the hex digits 0 to F, five bytes each,
/// every byte one 8-pixel row of the 8x5 bitmap.
pub open spec fn font_data() -> Seq<u8> {
    seq![
        0xF0u8, 0x90, 0x90, 0x90, 0xF0,  // 0
        0x20, 0x60, 0x20, 0x20, 0x70,  // 1
        0xF0, 0x10, 0xF0, 0x80, 0xF0,  // 2
        0xF0, 0x10, 0xF0, 0x10, 0xF0,  // 3
        0x90, 0x90, 0xF0, 0x10, 0x10,  // 4
        0xF0, 0x80, 0xF0, 0x10, 0xF0,  // 5
        0xF0, 0x80, 0xF0, 0x90, 0xF0,  // 6
        0xF0, 0x10, 0x20, 0x40, 0x40,  // 7
        0xF0, 0x90, 0xF0, 0x90, 0xF0,  // 8
        0xF0, 0x90, 0xF0, 0x10, 0xF0,  // 9
        0xF0, 0x90, 0xF0, 0x90, 0x90,  // A
        0xE0, 0x90, 0xE0, 0x90, 0xE0,  // B
        0xF0, 0x80, 0x80, 0x80, 0xF0,  // C
        0xE0, 0x90, 0x90, 0x90, 0xE0,  // D
        0xF0, 0x80, 0xF0, 0x80, 0xF0,  // E
        0xF0, 0x80, 0xF0, 0x80, 0x80,  // F
    ]
}

/// The font table as a byte vector.
pub fn font_table() -> (r: Vec<u8>)
    ensures
        r@ == font_data(),
{
    let r: Vec<u8> = vec![
        0xF0u8, 0x90, 0x90, 0x90, 0xF0,  // 0
        0x20, 0x60, 0x20, 0x20, 0x70,  // 1
        0xF0, 0x10, 0xF0, 0x80, 0xF0,  // 2
        0xF0, 0x10, 0xF0, 0x10, 0xF0,  // 3
        0x90, 0x90, 0xF0, 0x10, 0x10,  // 4
        0xF0, 0x80, 0xF0, 0x10, 0xF0,  // 5
        0xF0, 0x80, 0xF0, 0x90, 0xF0,  // 6
        0xF0, 0x10, 0x20, 0x40, 0x40,  // 7
        0xF0, 0x90, 0xF0, 0x90, 0xF0,  // 8
        0xF0, 0x90, 0xF0, 0x10, 0xF0,  // 9
        0xF0, 0x90, 0xF0, 0x90, 0x90,  // A
        0xE0, 0x90, 0xE0, 0x90, 0xE0,  // B
        0xF0, 0x80, 0x80, 0x80, 0xF0,  // C
        0xE0, 0x90, 0x90, 0x90, 0xE0,  // D
        0xF0, 0x80, 0xF0, 0x80, 0xF0,  // E
        0xF0, 0x80, 0xF0, 0x80, 0x80,  // F
    ];
    proof {
        assert(r@ =~= font_data());
    }
    r
}

/// Memory after a successful load of `rom`: the image verbatim at the entry
/// point, the font table at the bottom, the display region sentinel-filled
/// with `0xFF` so that a clear-screen is observable, everything else kept.
pub open spec fn loaded_mem(mem: Seq<u8>, rom: Seq<u8>) -> Seq<u8> {
    Seq::new(
        4096,
        |a: int|
            if 0 <= a < 80 {
                font_data()[a]
            } else if 0x200 <= a < 0x200 + rom.len() {
                rom[a - 0x200]
            } else if 0xF00 <= a {
                0xFFu8
            } else {
                mem[a]
            },
    )
}

/// Memory after a load that failed for want of room: the program area holds
/// the first 3232 bytes of the image, nothing else has been touched.
pub open spec fn partial_rom_mem(mem: Seq<u8>, rom: Seq<u8>) -> Seq<u8> {
    Seq::new(
        4096,
        |a: int|
            if 0x200 <= a < 0xEA0 {
                rom[a - 0x200]
            } else {
                mem[a]
            },
    )
}

/// The CHIP-8 machine.
pub struct Chip8 {
    /// 4K memory.
    mem: Vec<u8>,
    /// Program counter.
    pc: usize,
    /// Call stack of return addresses.
    sp: Vec<u16>,
    /// Data registers `V0` to `VF`.
    vregs: Vec<u8>,
    /// Address register for indirect memory access.
    i: u16,
    /// Delay timer.
    delay_timer: u8,
    /// Sound timer.
    sound_timer: u8,
    /// Keyboard status; `true` means the key is pressed.
    keyboard: Vec<bool>,
}

impl View for Chip8 {
    type V = Chip8View;

    closed spec fn view(&self) -> Chip8View {
        Chip8View {
            mem: self.mem@,
            pc: self.pc as int,
            stack: self.sp@,
            vregs: self.vregs@,
            i: self.i as int,
            delay: self.delay_timer as int,
            sound: self.sound_timer as int,
            keys: self.keyboard@,
        }
    }
}

impl Default for Chip8 {
    fn default() -> (r: Self)
        ensures
            r@ == initial_state(),
            r@.wf(),
    {
        Self::new()
    }
}

impl Chip8 {
    /// A machine in its initial state.
    pub fn new() -> (r: Self)
        ensures
            r@ == initial_state(),
            r@.wf(),
    {
        let r = Chip8 {
            mem: vec![0u8; 4096],
            pc: ENTRY_POINT,
            sp: Vec::new(),
            vregs: vec![0u8; 16],
            i: 0,
            delay_timer: 0,
            sound_timer: 0,
            keyboard: vec![false; 16],
        };
        proof {
            assert(r@.mem =~= initial_state().mem);
            assert(r@.vregs =~= initial_state().vregs);
            assert(r@.keys =~= initial_state().keys);
            assert(r@.stack =~= initial_state().stack);
            assert(r@ =~= initial_state());
        }
        r
    }

    /// Load a ROM image: copy it verbatim into the program area, then install
    /// the font table and sentinel-fill the display region with `0xFF` so a
    /// later clear-screen is visible.  An image that would run past the
    /// program area is refused with `MemoryFull`: the part that fits has then
    /// been copied and neither font nor display has been installed.  Loading
    /// is a one-shot operation performed before the first `step`.
    pub fn load(&mut self, rom: &Vec<u8>) -> (r: Result<(), Chip8Error>)
        requires
            old(self)@.wf(),
        ensures
            final(self)@.wf(),
            rom@.len() <= 3232 ==> r == Ok::<(), Chip8Error>(()) && final(self)@ == (Chip8View {
                mem: loaded_mem(old(self)@.mem, rom@),
                ..old(self)@
            }),
            rom@.len() > 3232 ==> r == Err::<(), Chip8Error>(Chip8Error::MemoryFull)
                && final(self)@ == (Chip8View {
                mem: partial_rom_mem(old(self)@.mem, rom@),
                ..old(self)@
            }),
    {
        let mut idx: usize = 0;
        while idx < rom.len()
            invariant
                old(self)@.wf(),
                idx <= rom@.len(),
                idx <= 3232,
                self@.mem.len() == 4096,
                self@ == (Chip8View { mem: self@.mem, ..old(self)@ }),
                forall|a: int| 0 <= a < 0x200 ==> self@.mem[a] == old(self)@.mem[a],
                forall|a: int| 0x200 <= a < 0x200 + idx ==> self@.mem[a] == rom@[a - 0x200],
                forall|a: int| 0x200 + idx <= a < 4096 ==> self@.mem[a] == old(self)@.mem[a],
            decreases rom@.len() - idx,
        {
            if ENTRY_POINT + idx >= PROGRAM_END {
                // The program area is full and at least one byte remains.
                proof {
                    assert(self@.mem =~= partial_rom_mem(old(self)@.mem, rom@));
                    assert(self@ =~= (Chip8View {
                        mem: partial_rom_mem(old(self)@.mem, rom@),
                        ..old(self)@
                    }));
                }
                return Err(Chip8Error::MemoryFull);
            }
            self.mem.set(ENTRY_POINT + idx, rom[idx]);
            idx += 1;
        }
        let font = font_table();
        let mut g: usize = 0;
        while g < FONTS_SIZE
            invariant
                g <= 80,
                font@ == font_data(),
                rom@.len() <= 3232,
                self@.mem.len() == 4096,
                self@ == (Chip8View { mem: self@.mem, ..old(self)@ }),
                forall|a: int| 0 <= a < g ==> self@.mem[a] == font_data()[a],
                forall|a: int| g <= a < 0x200 ==> self@.mem[a] == old(self)@.mem[a],
                forall|a: int|
                    0x200 <= a < 0x200 + rom@.len() ==> self@.mem[a] == rom@[a - 0x200],
                forall|a: int|
                    0x200 + rom@.len() <= a < 4096 ==> self@.mem[a] == old(self)@.mem[a],
            decreases 80 - g,
        {
            self.mem.set(g, font[g]);
            g += 1;
        }
        let mut k: usize = 0;
        while k < DISPLAY_SIZE
            invariant
                k <= 256,
                rom@.len() <= 3232,
                self@.mem.len() == 4096,
                self@ == (Chip8View { mem: self@.mem, ..old(self)@ }),
                forall|a: int| 0 <= a < 80 ==> self@.mem[a] == font_data()[a],
                forall|a: int| 80 <= a < 0x200 ==> self@.mem[a] == old(self)@.mem[a],
                forall|a: int|
                    0x200 <= a < 0x200 + rom@.len() ==> self@.mem[a] == rom@[a - 0x200],
                forall|a: int|
                    0x200 + rom@.len() <= a < 0xF00 ==> self@.mem[a] == old(self)@.mem[a],
                forall|a: int| 0xF00 <= a < 0xF00 + k ==> self@.mem[a] == 0xFFu8,
                forall|a: int| 0xF00 + k <= a < 4096 ==> self@.mem[a] == old(self)@.mem[a],
            decreases 256 - k,
        {
            self.mem.set(DISPLAY_OFFSET + k, 0xFF);
            k += 1;
        }
        proof {
            assert(self@.mem =~= loaded_mem(old(self)@.mem, rom@));
            assert(self@ =~= (Chip8View { mem: loaded_mem(old(self)@.mem, rom@), ..old(self)@ }));
        }
        Ok(())
    }

    /// One data register.
    pub fn get_vreg(&self, x: usize) -> (r: u8)
        requires
            x < self@.vregs.len(),
        ensures
            r == self@.vregs[x as int],
    {
        self.vregs[x]
    }

    /// The program counter.
    pub fn get_pc(&self) -> (r: usize)
        ensures
            r == self@.pc,
    {
        self.pc
    }

    /// The address register `I`.
    pub fn get_i(&self) -> (r: u16)
        ensures
            r == self@.i,
    {
        self.i
    }

    /// The delay timer.
    pub fn get_delay_timer(&self) -> (r: u8)
        ensures
            r == self@.delay,
    {
        self.delay_timer
    }

    /// The sound timer.
    pub fn get_sound_timer(&self) -> (r: u8)
        ensures
            r == self@.sound,
    {
        self.sound_timer
    }

    /// How many calls are pending.
    pub fn stack_depth(&self) -> (r: usize)
        ensures
            r == self@.stack.len(),
    {
        self.sp.len()
    }

    /// A copy of the display region of memory: the packed framebuffer.
    pub fn get_copy_of_framebuffer(&self) -> (r: Vec<u8>)
        requires
            self@.mem.len() == 4096,
        ensures
            r@ == self@.mem.subrange(0xF00, 0x1000),
    {
        let mut buf: Vec<u8> = Vec::new();
        let mut k: usize = 0;
        while k < DISPLAY_SIZE
            invariant
                self@.mem.len() == 4096,
                k <= 256,
                buf@ == self@.mem.subrange(0xF00, 0xF00 + k as int),
            decreases 256 - k,
        {
            buf.push(self.mem[DISPLAY_OFFSET + k]);
            proof {
                assert(buf@ =~= self@.mem.subrange(0xF00, 0xF00 + k + 1));
            }
            k += 1;
        }
        buf
    }

    /// A copy of all of memory.
    pub fn get_copy_of_memory(&self) -> (r: Vec<u8>)
        ensures
            r@ == self@.mem,
    {
        let mut buf: Vec<u8> = Vec::new();
        let mut k: usize = 0;
        while k < self.mem.len()
            invariant
                k <= self@.mem.len(),
                buf@ == self@.mem.take(k as int),
            decreases self@.mem.len() - k,
        {
            buf.push(self.mem[k]);
            proof {
                assert(buf@ =~= self@.mem.take(k + 1));
            }
            k += 1;
        }
        proof {
            assert(self@.mem.take(self@.mem.len() as int) =~= self@.mem);
        }
        buf
    }

    /// Record whether `key` is pressed; key indices of 16 or more are
    /// silently ignored.
    pub fn set_key(&mut self, key: usize, pressed: bool)
        requires
            old(self)@.wf(),
        ensures
            final(self)@.wf(),
            final(self)@ == (if key < 16 {
                Chip8View { keys: old(self)@.keys.update(key as int, pressed), ..old(self)@ }
            } else {
                old(self)@
            }),
    {
        if key < KEYBOARD_SIZE {
            self.keyboard.set(key, pressed);
        }
    }

    /// Release every key.
    pub fn reset_keyboard(&mut self)
        requires
            old(self)@.wf(),
        ensures
            final(self)@.wf(),
            final(self)@ == (Chip8View {
                keys: Seq::new(16, |k: int| false),
                ..old(self)@
            }),
    {
        let mut k: usize = 0;
        while k < KEYBOARD_SIZE
            invariant
                old(self)@.wf(),
                k <= 16,
                self@ == (Chip8View { keys: self@.keys, ..old(self)@ }),
                self@.keys.len() == 16,
                forall|q: int| 0 <= q < k ==> self@.keys[q] == false,
                forall|q: int| k <= q < 16 ==> self@.keys[q] == old(self)@.keys[q],
            decreases 16 - k,
        {
            self.keyboard.set(k, false);
            k += 1;
        }
        proof {
            assert(self@.keys =~= Seq::new(16, |k: int| false));
            assert(self@ =~= (Chip8View { keys: Seq::new(16, |k: int| false), ..old(self)@ }));
        }
    }

    /// Read register `src` into `dst`; register indices of 16 or more are
    /// rejected.
    pub fn check_vregs(&self, src: usize, dst: &mut usize) -> (r: Result<(), Chip8Error>)
        requires
            self@.wf(),
        ensures
            match r {
                Ok(()) => src < 16 && *final(dst) == self@.vregs[src as int] as usize,
                Err(e) => e == Chip8Error::VregsOverflow && src >= 16 && *final(dst) == *old(dst),
            },
    {
        if src >= VREGS_SIZE {
            return Err(Chip8Error::VregsOverflow);
        }
        *dst = self.vregs[src] as usize;
        Ok(())
    }

    /// A copy of `[start, start+len)` of memory.
    fn copy_mem_range(&self, start: usize, len: usize) -> (r: Vec<u8>)
        requires
            self@.mem.len() == 4096,
            start + len <= 4096,
        ensures
            r@ == self@.mem.subrange(start as int, start as int + len),
    {
        let mut buf: Vec<u8> = Vec::new();
        let mut k: usize = 0;
        while k < len
            invariant
                self@.mem.len() == 4096,
                start + len <= 4096,
                k <= len,
                buf@ == self@.mem.subrange(start as int, start as int + k),
            decreases len - k,
        {
            buf.push(self.mem[start + k]);
            proof {
                assert(buf@ =~= self@.mem.subrange(start as int, start as int + k + 1));
            }
            k += 1;
        }
        buf
    }

    /// Zero the display region.
    fn clear_display(&mut self)
        requires
            old(self)@.mem.len() == 4096,
        ensures
            final(self)@ == (Chip8View { mem: clear_display_spec(old(self)@.mem), ..old(self)@ }),
    {
        let mut k: usize = 0;
        while k < DISPLAY_SIZE
            invariant
                k <= 256,
                self@.mem.len() == 4096,
                self@ == (Chip8View { mem: self@.mem, ..old(self)@ }),
                forall|a: int| 0 <= a < 0xF00 ==> self@.mem[a] == old(self)@.mem[a],
                forall|a: int| 0xF00 <= a < 0xF00 + k ==> self@.mem[a] == 0u8,
                forall|a: int| 0xF00 + k <= a < 4096 ==> self@.mem[a] == old(self)@.mem[a],
            decreases 256 - k,
        {
            self.mem.set(DISPLAY_OFFSET + k, 0);
            k += 1;
        }
        proof {
            assert(self@.mem =~= clear_display_spec(old(self)@.mem));
            assert(self@ =~= (Chip8View { mem: clear_display_spec(old(self)@.mem), ..old(self)@ }));
        }
    }

    /// Replace the display region with `fb`.
    fn write_framebuffer(&mut self, fb: &Vec<u8>)
        requires
            old(self)@.mem.len() == 4096,
            fb@.len() == 256,
        ensures
            final(self)@ == (Chip8View {
                mem: write_fb_spec(old(self)@.mem, fb@),
                ..old(self)@
            }),
    {
        let mut k: usize = 0;
        while k < DISPLAY_SIZE
            invariant
                k <= 256,
                fb@.len() == 256,
                self@.mem.len() == 4096,
                self@ == (Chip8View { mem: self@.mem, ..old(self)@ }),
                forall|a: int| 0 <= a < 0xF00 ==> self@.mem[a] == old(self)@.mem[a],
                forall|a: int| 0xF00 <= a < 0xF00 + k ==> self@.mem[a] == fb@[a - 0xF00],
                forall|a: int| 0xF00 + k <= a < 4096 ==> self@.mem[a] == old(self)@.mem[a],
            decreases 256 - k,
        {
            self.mem.set(DISPLAY_OFFSET + k, fb[k]);
            k += 1;
        }
        proof {
            assert(self@.mem =~= write_fb_spec(old(self)@.mem, fb@));
            assert(self@ =~= (Chip8View { mem: write_fb_spec(old(self)@.mem, fb@), ..old(self)@ }));
        }
    }

    /// Store `V0..Vx` to memory at `[I, I+x]`.
    fn store_regs(&mut self, x: u8)
        requires
            old(self)@.mem.len() == 4096,
            old(self)@.vregs.len() == 16,
            x < 16,
            old(self)@.i + x + 1 <= 4096,
        ensures
            final(self)@ == (Chip8View {
                mem: store_regs_spec(old(self)@.mem, old(self)@.vregs, old(self)@.i, x),
                ..old(self)@
            }),
    {
        let base = self.i as usize;
        let count = x as usize + 1;
        let mut r: usize = 0;
        while r < count
            invariant
                r <= count,
                count == x + 1,
                x < 16,
                base == old(self)@.i,
                base + count <= 4096,
                self@.mem.len() == 4096,
                old(self)@.vregs.len() == 16,
                self@ == (Chip8View { mem: self@.mem, ..old(self)@ }),
                forall|a: int| 0 <= a < base ==> self@.mem[a] == old(self)@.mem[a],
                forall|a: int|
                    base <= a < base + r ==> self@.mem[a] == old(self)@.vregs[a - base],
                forall|a: int| base + r <= a < 4096 ==> self@.mem[a] == old(self)@.mem[a],
            decreases count - r,
        {
            self.mem.set(base + r, self.vregs[r]);
            r += 1;
        }
        proof {
            assert(self@.mem =~= store_regs_spec(
                old(self)@.mem,
                old(self)@.vregs,
                old(self)@.i,
                x,
            ));
            assert(self@ =~= (Chip8View {
                mem: store_regs_spec(old(self)@.mem, old(self)@.vregs, old(self)@.i, x),
                ..old(self)@
            }));
        }
    }

    /// Load `V0..Vx` from memory at `[I, I+x]`.
    fn load_regs(&mut self, x: u8)
        requires
            old(self)@.mem.len() == 4096,
            old(self)@.vregs.len() == 16,
            x < 16,
            old(self)@.i + x + 1 <= 4096,
        ensures
            final(self)@ == (Chip8View {
                vregs: load_regs_spec(old(self)@.vregs, old(self)@.mem, old(self)@.i, x),
                ..old(self)@
            }),
    {
        let base = self.i as usize;
        let count = x as usize + 1;
        let mut r: usize = 0;
        while r < count
            invariant
                r <= count,
                count == x + 1,
                x < 16,
                base == old(self)@.i,
                base + count <= 4096,
                self@.vregs.len() == 16,
                old(self)@.mem.len() == 4096,
                self@ == (Chip8View { vregs: self@.vregs, ..old(self)@ }),
                forall|q: int| 0 <= q < r ==> self@.vregs[q] == old(self)@.mem[base + q],
                forall|q: int| r <= q < 16 ==> self@.vregs[q] == old(self)@.vregs[q],
            decreases count - r,
        {
            self.vregs.set(r, self.mem[base + r]);
            r += 1;
        }
        proof {
            assert(self@.vregs =~= load_regs_spec(
                old(self)@.vregs,
                old(self)@.mem,
                old(self)@.i,
                x,
            ));
            assert(self@ =~= (Chip8View {
                vregs: load_regs_spec(old(self)@.vregs, old(self)@.mem, old(self)@.i, x),
                ..old(self)@
            }));
        }
    }

    /// Dispatch one decoded instruction against the machine.  The program
    /// counter must already have advanced past the word and the timers must
    /// already have ticked; `emulate_insn` does both.
    fn execute(&mut self, ins: Instr, rand: u8) -> (r: Result<(), Chip8Error>)
        requires
            old(self)@.wf(),
            old(self)@.pc <= 4096,
            fields_bounded(ins),
            exec_safe(old(self)@, ins),
        ensures
            final(self)@.wf(),
            final(self)@ == spec_exec(old(self)@, ins, rand).m,
            r == as_result(spec_exec(old(self)@, ins, rand).err),
    {
        match ins {
            Instr::Cls => {
                self.clear_display();
                Ok(())
            },
            Instr::Ret => {
                match self.sp.pop() {
                    None => Err(Chip8Error::StackUnderflow),
                    Some(a) => {
                        self.pc = a as usize;
                        Ok(())
                    },
                }
            },
            Instr::Sys { .. } => Ok(()),
            Instr::Jp { nnn } => {
                self.pc = nnn as usize;
                Ok(())
            },
            Instr::Call { nnn } => {
                if self.sp.len() >= STACK_DEPTH {
                    return Err(Chip8Error::StackOverflow);
                }
                self.sp.push(self.pc as u16);
                self.pc = nnn as usize;
                Ok(())
            },
            Instr::SeVxByte { x, kk } => {
                if self.vregs[x as usize] == kk {
                    self.pc += OPCODE_SIZE;
                }
                Ok(())
            },
            Instr::SneVxByte { x, kk } => {
                if self.vregs[x as usize] != kk {
                    self.pc += OPCODE_SIZE;
                }
                Ok(())
            },
            Instr::SeVxVy { x, y } => {
                if self.vregs[x as usize] == self.vregs[y as usize] {
                    self.pc += OPCODE_SIZE;
                }
                Ok(())
            },
            Instr::SneVxVy { x, y } => {
                if self.vregs[x as usize] != self.vregs[y as usize] {
                    self.pc += OPCODE_SIZE;
                }
                Ok(())
            },
            Instr::LdVxByte { x, kk } => {
                self.vregs.set(x as usize, kk);
                Ok(())
            },
            Instr::AddVxByte { x, kk } => {
                let vx = self.vregs[x as usize];
                let sum = vx as u16 + kk as u16;
                self.vregs.set(x as usize, (sum % 256) as u8);
                Ok(())
            },
            Instr::LdVxVy { x, y } => {
                let vy = self.vregs[y as usize];
                self.vregs.set(x as usize, vy);
                Ok(())
            },
            Instr::OrVxVy { x, y } => {
                let vx = self.vregs[x as usize];
                let vy = self.vregs[y as usize];
                self.vregs.set(x as usize, vx | vy);
                Ok(())
            },
            Instr::AndVxVy { x, y } => {
                let vx = self.vregs[x as usize];
                let vy = self.vregs[y as usize];
                self.vregs.set(x as usize, vx & vy);
                Ok(())
            },
            Instr::XorVxVy { x, y } => {
                let vx = self.vregs[x as usize];
                let vy = self.vregs[y as usize];
                self.vregs.set(x as usize, vx ^ vy);
                Ok(())
            },
            Instr::AddVxVy { x, y } => {
                let vx = self.vregs[x as usize];
                let vy = self.vregs[y as usize];
                let sum = vx as u16 + vy as u16;
                self.vregs.set(15, if sum > 255 { 1 } else { 0 });
                self.vregs.set(x as usize, (sum % 256) as u8);
                Ok(())
            },
            Instr::SubVxVy { x, y } => {
                let vx = self.vregs[x as usize];
                let vy = self.vregs[y as usize];
                self.vregs.set(15, if vx > vy { 1 } else { 0 });
                let a = self.vregs[x as usize];
                let b = self.vregs[y as usize];
                self.vregs.set(x as usize, ((a as u16 + 256 - b as u16) % 256) as u8);
                Ok(())
            },
            Instr::ShrVx { x, .. } => {
                let vx = self.vregs[x as usize];
                self.vregs.set(15, vx & 1);
                let a = self.vregs[x as usize];
                self.vregs.set(x as usize, a / 2);
                Ok(())
            },
            Instr::SubnVxVy { x, y } => {
                let vx = self.vregs[x as usize];
                let vy = self.vregs[y as usize];
                self.vregs.set(15, if vy > vx { 1 } else { 0 });
                let a = self.vregs[x as usize];
                let b = self.vregs[y as usize];
                self.vregs.set(x as usize, ((b as u16 + 256 - a as u16) % 256) as u8);
                Ok(())
            },
            Instr::ShlVx { x, .. } => {
                let vx = self.vregs[x as usize];
                self.vregs.set(15, if vx & 0x80 == 0x80 { 1 } else { 0 });
                let a = self.vregs[x as usize];
                self.vregs.set(x as usize, ((a as u16 * 2) % 256) as u8);
                Ok(())
            },
            Instr::LdI { nnn } => {
                self.i = nnn;
                Ok(())
            },
            Instr::JpV0 { nnn } => {
                self.pc = nnn as usize + self.vregs[0] as usize;
                Ok(())
            },
            Instr::RndVxByte { x, kk } => {
                self.vregs.set(x as usize, rand & kk);
                Ok(())
            },
            Instr::DrwVxVyN { x, y, n } => {
                let vx = self.vregs[x as usize];
                let vy = self.vregs[y as usize];
                let sprite = self.copy_mem_range(self.i as usize, n as usize);
                let mut fb = self.get_copy_of_framebuffer();
                let erased = crate::display::draw_sprite(&mut fb, &sprite, vx, vy);
                self.write_framebuffer(&fb);
                self.vregs.set(15, if erased { 1 } else { 0 });
                Ok(())
            },
            Instr::SkpVx { x } => {
                let key = self.vregs[x as usize];
                if key >= 16 {
                    return Err(Chip8Error::WrongKey);
                }
                if self.keyboard[key as usize] {
                    self.pc += OPCODE_SIZE;
                }
                Ok(())
            },
            Instr::SknpVx { x } => {
                let key = self.vregs[x as usize];
                if key >= 16 {
                    return Err(Chip8Error::WrongKey);
                }
                if !self.keyboard[key as usize] {
                    self.pc += OPCODE_SIZE;
                }
                Ok(())
            },
            Instr::LdVxDt { x } => {
                let dt = self.delay_timer;
                self.vregs.set(x as usize, dt);
                Ok(())
            },
            Instr::LdDtVx { x } => {
                self.delay_timer = self.vregs[x as usize];
                Ok(())
            },
            Instr::LdStVx { x } => {
                self.sound_timer = self.vregs[x as usize];
                Ok(())
            },
            Instr::AddIVx { x } => {
                let vx = self.vregs[x as usize];
                self.i = (self.i + vx as u16) % 4096;
                Ok(())
            },
            Instr::LdFVx { x } => {
                let vx = self.vregs[x as usize];
                if vx >= 16 {
                    return Err(Chip8Error::UndefinedHexadecimal(vx as u16));
                }
                self.i = FONTS_OFFSET as u16 + FONTS_HEIGHT as u16 * vx as u16;
                Ok(())
            },
            Instr::LdBVx { x } => {
                let vx = self.vregs[x as usize];
                let idx = self.i as usize;
                self.mem.set(idx, (vx / 100) % 10);
                self.mem.set(idx + 1, (vx / 10) % 10);
                self.mem.set(idx + 2, vx % 10);
                Ok(())
            },
            Instr::LdMemVx { x } => {
                self.store_regs(x);
                Ok(())
            },
            Instr::LdVxMem { x } => {
                self.load_regs(x);
                Ok(())
            },
            Instr::Unknown { w } => Err(Chip8Error::UnknownOpcode(w)),
        }
    }

    /// Execute the instruction at the program counter: advance the counter by
    /// 2, tick both timers down by at most one, then dispatch.  `rand` is the
    /// host-supplied random byte that a `Cxkk` instruction, and only it,
    /// consumes.
    pub fn emulate_insn(&mut self, rand: u8) -> (r: Result<(), Chip8Error>)
        requires
            old(self)@.wf(),
            step_safe(old(self)@),
        ensures
            final(self)@.wf(),
            final(self)@ == spec_step(old(self)@, rand).m,
            r == as_result(spec_step(old(self)@, rand).err),
    {
        let hi = self.mem[self.pc];
        let lo = self.mem[self.pc + 1];
        let w = ((hi as u16) << 8) | (lo as u16);
        proof {
            let hi16 = hi as u16;
            let lo16 = lo as u16;
            assert(hi16 < 256 && lo16 < 256 ==> ((hi16 << 8) | lo16) == hi16 * 256 + lo16)
                by (bit_vector);
            assert(w == word_at(old(self)@.mem, old(self)@.pc));
        }
        self.pc += OPCODE_SIZE;
        if self.delay_timer > 0 {
            self.delay_timer -= 1;
        }
        if self.sound_timer > 0 {
            self.sound_timer -= 1;
        }
        let ins = crate::instr::decode(w);
        proof {
            assert(self@ =~= ticked(old(self)@));
        }
        self.execute(ins, rand)
    }

    /// Execute exactly one instruction; `emulate_insn` under the name the
    /// host loop uses.
    pub fn step(&mut self, rand: u8) -> (r: Result<(), Chip8Error>)
        requires
            old(self)@.wf(),
            step_safe(old(self)@),
        ensures
            final(self)@.wf(),
            final(self)@ == spec_step(old(self)@, rand).m,
            r == as_result(spec_step(old(self)@, rand).err),
    {
        self.emulate_insn(rand)
    }

    /// Whether a `step` from the current state stays inside the address
    /// space.  The host tests this before every `step`.
    pub fn can_step(&self) -> (r: bool)
        requires
            self@.wf(),
        ensures
            r == step_safe(self@),
    {
        if self.pc + 2 > MEMSIZE {
            return false;
        }
        let hi = self.mem[self.pc];
        let lo = self.mem[self.pc + 1];
        let w = ((hi as u16) << 8) | (lo as u16);
        proof {
            let hi16 = hi as u16;
            let lo16 = lo as u16;
            assert(hi16 < 256 && lo16 < 256 ==> ((hi16 << 8) | lo16) == hi16 * 256 + lo16)
                by (bit_vector);
            assert(w == word_at(self@.mem, self@.pc));
        }
        let ins = crate::instr::decode(w);
        match ins {
            Instr::DrwVxVyN { n, .. } => self.i as usize + n as usize <= MEMSIZE,
            Instr::LdBVx { .. } => self.i as usize + 3 <= MEMSIZE,
            Instr::LdMemVx { x } => self.i as usize + x as usize + 1 <= MEMSIZE,
            Instr::LdVxMem { x } => self.i as usize + x as usize + 1 <= MEMSIZE,
            _ => true,
        }
    }
}

} // verus!
