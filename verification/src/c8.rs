use vstd::prelude::*;

use crate::instr::{decode_spec, u4s_to_u16, u4s_to_u8, wf_instr, Instr, V};

verus! {

/// Screen width in pixels.
pub const SCREEN_W: usize = 64;

/// Screen height in pixels.
pub const SCREEN_H: usize = 32;

/// Number of pixels in the display buffer.
pub const SCREEN_LEN: usize = 64 * 32;

/// Number of keys on the input pad.
pub const KEY_COUNT: usize = 16;

/// Size of the flat addressable memory, in bytes.
pub const MEM_SIZE: usize = 4096;

/// Offset at which loaded programs begin; the program counter starts here.
pub const PROG_START: u16 = 0x200;

/// The timers tick down once each time this many nanoseconds of wall-clock
/// time have accumulated: a 60 Hz cadence.
pub const PULSE_NS: u64 = 1_000_000_000 / 60;

/// The built-in font: sixteen glyphs of five rows each, one byte per 8-pixel
/// row, placed at the bottom of memory. Glyph `k` starts at address `5 * k`.
pub const FONT: [u8; 80] = [
    0b01100000,
    0b10010000,
    0b10010000,
    0b10010000,
    0b01100000,
    0b00100000,
    0b01100000,
    0b10100000,
    0b10100000,
    0b01110000,
    0b01100000,
    0b10010000,
    0b00100000,
    0b01000000,
    0b11110000,
    0b01100000,
    0b10010000,
    0b00100000,
    0b10010000,
    0b01100000,
    0b01100000,
    0b10100000,
    0b11110000,
    0b10100000,
    0b00100000,
    0b11110000,
    0b10000000,
    0b11110000,
    0b00010000,
    0b11100000,
    0b01110000,
    0b10000000,
    0b11100000,
    0b10010000,
    0b01100000,
    0b11110000,
    0b00010000,
    0b00100000,
    0b00100000,
    0b01000000,
    0b01100000,
    0b10010000,
    0b01100000,
    0b10010000,
    0b01100000,
    0b01100000,
    0b10010000,
    0b01110000,
    0b00010000,
    0b11100000,
    0b01100000,
    0b10010000,
    0b11110000,
    0b10010000,
    0b10010000,
    0b11100000,
    0b10010000,
    0b11100000,
    0b10010000,
    0b11100000,
    0b01100000,
    0b10010000,
    0b10000000,
    0b10010000,
    0b01100000,
    0b11100000,
    0b10010000,
    0b10010000,
    0b10010000,
    0b11100000,
    0b11110000,
    0b10000000,
    0b11100000,
    0b10000000,
    0b11110000,
    0b11110000,
    0b10000000,
    0b11100000,
    0b10000000,
    0b10000000,
];

/// A failure of one machine cycle. Every error is terminal for that cycle
/// and is handed back to the host; the engine never recovers on its own.
#[derive(Copy, Clone, Debug, PartialEq, Eq)]
pub enum Error {
    /// A return instruction ran with an empty call stack.
    NoReturnAddr,
    /// The legacy external-routine call family, which this engine does not
    /// implement; carries the 12-bit routine address.
    NoSuchRcaCall(u16),
    /// The fetched nibble pattern is not in the opcode table; carries the
    /// four raw nibbles.
    InvalidInstr(u8, u8, u8, u8),
    /// A fetch or an indexed access fell outside the memory or the register
    /// range.
    OutOfBounds,
}

/// The mathematical model of the whole machine state.
#[verifier::ext_equal]
pub ghost struct C8View {
    /// The sixteen general-purpose registers; entry 15 doubles as the
    /// carry / borrow / collision flag.
    pub v: Seq<u8>,
    /// The 16-bit index register.
    pub i: u16,
    /// The program counter: address of the next instruction to fetch.
    pub pc: u16,
    /// Return addresses pushed by call instructions.
    pub stack: Seq<u16>,
    /// The delay timer.
    pub delay: u8,
    /// The sound timer.
    pub sound: u8,
    /// The 4096-byte memory.
    pub mem: Seq<u8>,
    /// The 64 x 32 display buffer, row-major: pixel (x, y) at `y * 64 + x`.
    pub screen: Seq<bool>,
    /// The input latch: one pressed flag per key.
    pub keys: Seq<bool>,
    /// Nanoseconds of wall-clock time accumulated since the timers last
    /// ticked down.
    pub acc: u64,
}

impl C8View {
    /// The shape every reachable machine state has: fixed-size register
    /// file, memory, screen and latch, and only valid instruction addresses
    /// on the call stack.
    pub open spec fn wf(self) -> bool {
        &&& self.v.len() == 16
        &&& self.mem.len() == 4096
        &&& self.screen.len() == 2048
        &&& self.keys.len() == 16
        &&& forall|k: int| 0 <= k < self.stack.len() ==> self.stack[k] <= 4094
    }
}

/// Memory as it stands at machine creation: the font table at the bottom,
/// zeroes everywhere else.
pub open spec fn initial_mem() -> Seq<u8> {
    Seq::new(4096, |k: int| if 0 <= k < 80 { FONT@[k] } else { 0u8 })
}

/// The machine state at creation: cleared registers, timers, screen and
/// latch, the program counter at the program-start offset, and the font in
/// memory.
pub open spec fn initial_state() -> C8View {
    C8View {
        v: Seq::new(16, |k: int| 0u8),
        i: 0,
        pc: PROG_START,
        stack: Seq::empty(),
        delay: 0,
        sound: 0,
        mem: initial_mem(),
        screen: Seq::new(2048, |k: int| false),
        keys: Seq::new(16, |k: int| false),
        acc: 0,
    }
}

/// The effect of executing one decoded instruction `instr` in state `s`:
/// either the next state, or the error that cycle fails with, in which case
/// the machine is left exactly as it was. `rnd` is the byte drawn from the
/// host's random source, read only by the random-mask instruction.
///
/// The program counter normally advances by two; by four on a taken
/// conditional skip; jumps, calls and returns place it themselves; a key
/// wait with no key down leaves the state untouched so the same instruction
/// re-runs next cycle.
pub open spec fn step_spec(s: C8View, instr: Instr, rnd: u8) -> Result<C8View, Error> {
    match instr {
        Instr::RcaCall(addr) => Err(Error::NoSuchRcaCall(addr)),
        Instr::ClearScreen => Ok(C8View { screen: blank_screen(), pc: (s.pc + 2) as u16, ..s }),
        Instr::Return => if s.stack.len() == 0 {
            Err(Error::NoReturnAddr)
        } else {
            Ok(
                C8View {
                    pc: (s.stack.last() + 2) as u16,
                    stack: s.stack.drop_last(),
                    ..s
                },
            )
        },
        Instr::Jump(addr) => Ok(C8View { pc: addr, ..s }),
        Instr::Call(addr) => Ok(C8View { pc: addr, stack: s.stack.push(s.pc), ..s }),
        Instr::SkipIfEqConst(x, k) => Ok(
            C8View {
                pc: if s.v[x.0 as int] == k {
                    (s.pc + 4) as u16
                } else {
                    (s.pc + 2) as u16
                },
                ..s
            },
        ),
        Instr::SkipIfNotEqConst(x, k) => Ok(
            C8View {
                pc: if s.v[x.0 as int] != k {
                    (s.pc + 4) as u16
                } else {
                    (s.pc + 2) as u16
                },
                ..s
            },
        ),
        Instr::SkipIfEqReg(x, y) => Ok(
            C8View {
                pc: if s.v[x.0 as int] == s.v[y.0 as int] {
                    (s.pc + 4) as u16
                } else {
                    (s.pc + 2) as u16
                },
                ..s
            },
        ),
        Instr::SkipIfNotEqReg(x, y) => Ok(
            C8View {
                pc: if s.v[x.0 as int] != s.v[y.0 as int] {
                    (s.pc + 4) as u16
                } else {
                    (s.pc + 2) as u16
                },
                ..s
            },
        ),
        Instr::SetConst(x, k) => Ok(
            C8View { v: s.v.update(x.0 as int, k), pc: (s.pc + 2) as u16, ..s },
        ),
        Instr::AddConst(x, k) => Ok(
            C8View {
                v: s.v.update(x.0 as int, ((s.v[x.0 as int] + k) % 256) as u8),
                pc: (s.pc + 2) as u16,
                ..s
            },
        ),
        Instr::SetReg(x, y) => Ok(
            C8View { v: s.v.update(x.0 as int, s.v[y.0 as int]), pc: (s.pc + 2) as u16, ..s },
        ),
        Instr::OrReg(x, y) => Ok(
            C8View {
                v: s.v.update(x.0 as int, s.v[x.0 as int] | s.v[y.0 as int]),
                pc: (s.pc + 2) as u16,
                ..s
            },
        ),
        Instr::AndReg(x, y) => Ok(
            C8View {
                v: s.v.update(x.0 as int, s.v[x.0 as int] & s.v[y.0 as int]),
                pc: (s.pc + 2) as u16,
                ..s
            },
        ),
        Instr::XorReg(x, y) => Ok(
            C8View {
                v: s.v.update(x.0 as int, s.v[x.0 as int] ^ s.v[y.0 as int]),
                pc: (s.pc + 2) as u16,
                ..s
            },
        ),
        Instr::AddReg(x, y) => {
            let sum = s.v[x.0 as int] + s.v[y.0 as int];
            Ok(
                C8View {
                    v: s.v.update(x.0 as int, (sum % 256) as u8).update(
                        15,
                        if sum > 255 {
                            1u8
                        } else {
                            0u8
                        },
                    ),
                    pc: (s.pc + 2) as u16,
                    ..s
                },
            )
        },
        Instr::SubReg(x, y) => {
            let diff = s.v[x.0 as int] - s.v[y.0 as int];
            Ok(
                C8View {
                    v: s.v.update(x.0 as int, (diff % 256) as u8).update(
                        15,
                        if diff < 0 {
                            0u8
                        } else {
                            1u8
                        },
                    ),
                    pc: (s.pc + 2) as u16,
                    ..s
                },
            )
        },
        Instr::NegReg(x, y) => {
            let diff = s.v[y.0 as int] - s.v[x.0 as int];
            Ok(
                C8View {
                    v: s.v.update(x.0 as int, (diff % 256) as u8).update(
                        15,
                        if diff < 0 {
                            0u8
                        } else {
                            1u8
                        },
                    ),
                    pc: (s.pc + 2) as u16,
                    ..s
                },
            )
        },
        Instr::ShrReg(x, y) => {
            let vy = s.v[y.0 as int];
            Ok(
                C8View {
                    v: s.v.update(15, vy & 1).update(x.0 as int, vy >> 1),
                    pc: (s.pc + 2) as u16,
                    ..s
                },
            )
        },
        Instr::ShlReg(x, y) => {
            let vy = s.v[y.0 as int];
            Ok(
                C8View {
                    v: s.v.update(15, (vy >> 7) & 1).update(x.0 as int, vy << 1),
                    pc: (s.pc + 2) as u16,
                    ..s
                },
            )
        },
        Instr::SetIndex(addr) => Ok(C8View { i: addr, pc: (s.pc + 2) as u16, ..s }),
        Instr::AddIndex(x) => {
            let sum = s.i + s.v[x.0 as int];
            Ok(
                C8View {
                    i: (sum % 65536) as u16,
                    v: s.v.update(
                        15,
                        if sum > 0xFFF {
                            1u8
                        } else {
                            0u8
                        },
                    ),
                    pc: (s.pc + 2) as u16,
                    ..s
                },
            )
        },
        Instr::SetIndexFont(x) => Ok(
            C8View { i: (s.v[x.0 as int] * 5) as u16, pc: (s.pc + 2) as u16, ..s },
        ),
        Instr::JumpPlusV0(addr) => Ok(C8View { pc: (addr + s.v[0]) as u16, ..s }),
        Instr::RandomAnd(x, k) => Ok(
            C8View { v: s.v.update(x.0 as int, rnd & k), pc: (s.pc + 2) as u16, ..s },
        ),
        Instr::Draw(x, y, h) => if h > 0 && s.i + h > 4096 {
            Err(Error::OutOfBounds)
        } else {
            let d = draw_rows(s.screen, s.mem, s.i as int, s.v[x.0 as int], s.v[y.0 as int], h as int);
            Ok(
                C8View {
                    screen: d.0,
                    v: s.v.update(
                        15,
                        if d.1 {
                            1u8
                        } else {
                            0u8
                        },
                    ),
                    pc: (s.pc + 2) as u16,
                    ..s
                },
            )
        },
        Instr::Load(x) => if s.i + x.0 >= 4096 {
            Err(Error::OutOfBounds)
        } else {
            Ok(
                C8View {
                    v: Seq::new(
                        16,
                        |k: int|
                            if 0 <= k <= x.0 {
                                s.mem[s.i + k]
                            } else {
                                s.v[k]
                            },
                    ),
                    pc: (s.pc + 2) as u16,
                    ..s
                },
            )
        },
        Instr::Store(x) => if s.i + x.0 >= 4096 {
            Err(Error::OutOfBounds)
        } else {
            Ok(
                C8View {
                    mem: Seq::new(
                        4096,
                        |k: int|
                            if s.i <= k <= s.i + x.0 {
                                s.v[k - s.i]
                            } else {
                                s.mem[k]
                            },
                    ),
                    pc: (s.pc + 2) as u16,
                    ..s
                },
            )
        },
        Instr::StoreBcd(x) => if s.i > 4093 {
            Err(Error::OutOfBounds)
        } else {
            let vx = s.v[x.0 as int];
            Ok(
                C8View {
                    mem: s.mem.update(s.i as int, (vx / 100) as u8).update(
                        s.i as int + 1,
                        ((vx / 10) % 10) as u8,
                    ).update(s.i as int + 2, (vx % 10) as u8),
                    pc: (s.pc + 2) as u16,
                    ..s
                },
            )
        },
        Instr::GetKey(x) => match first_key(s.keys) {
            Some(k) => Ok(
                C8View { v: s.v.update(x.0 as int, k as u8), pc: (s.pc + 2) as u16, ..s },
            ),
            None => Ok(s),
        },
        Instr::SkipIfKey(x) => {
            let idx = s.v[x.0 as int];
            if idx >= 16 {
                Err(Error::OutOfBounds)
            } else {
                Ok(
                    C8View {
                        pc: if s.keys[idx as int] {
                            (s.pc + 4) as u16
                        } else {
                            (s.pc + 2) as u16
                        },
                        ..s
                    },
                )
            }
        },
        Instr::SkipIfNotKey(x) => {
            let idx = s.v[x.0 as int];
            if idx >= 16 {
                Err(Error::OutOfBounds)
            } else {
                Ok(
                    C8View {
                        pc: if !s.keys[idx as int] {
                            (s.pc + 4) as u16
                        } else {
                            (s.pc + 2) as u16
                        },
                        ..s
                    },
                )
            }
        },
        Instr::GetDelay(x) => Ok(
            C8View { v: s.v.update(x.0 as int, s.delay), pc: (s.pc + 2) as u16, ..s },
        ),
        Instr::SetDelay(x) => Ok(C8View { delay: s.v[x.0 as int], pc: (s.pc + 2) as u16, ..s }),
        Instr::SetSound(x) => Ok(C8View { sound: s.v[x.0 as int], pc: (s.pc + 2) as u16, ..s }),
    }
}

/// Relies on rand::random: a value drawn from the thread-local random
/// generator. Nothing is promised of the result.
pub assume_specification<T>[ rand::random::<T> ]() -> (r: T)
    where
        rand::distributions::Standard: rand::distributions::Distribution<T>,
;

/// The timer half of one engine cycle: the elapsed nanoseconds are added to
/// the accumulator (saturating at the top of `u64`); once more than one
/// 60 Hz period has accumulated, both timers tick down one step, stopping at
/// zero, and the accumulator resets.
pub open spec fn pulse_spec(s: C8View, nanos: u64) -> C8View {
    let acc2 = if s.acc + nanos > u64::MAX {
        u64::MAX
    } else {
        (s.acc + nanos) as u64
    };
    if acc2 > PULSE_NS {
        C8View {
            delay: if s.delay == 0 {
                0u8
            } else {
                (s.delay - 1) as u8
            },
            sound: if s.sound == 0 {
                0u8
            } else {
                (s.sound - 1) as u8
            },
            acc: 0,
            ..s
        }
    } else {
        C8View { acc: acc2, ..s }
    }
}

/// One whole engine cycle: the timer pulse, then exactly one
/// fetch-decode-execute step at the current program counter. On any failure
/// the machine keeps the state it had after the pulse, so the program
/// counter still names the faulting instruction.
pub open spec fn tick_spec(s: C8View, nanos: u64, rnd: u8) -> (C8View, Result<(), Error>) {
    let s1 = pulse_spec(s, nanos);
    match fetch_spec(s1, s1.pc) {
        Err(e) => (s1, Err(e)),
        Ok(op) => match decode_spec(op) {
            None => (s1, Err(Error::InvalidInstr(op.0, op.1, op.2, op.3))),
            Some(instr) => match step_spec(s1, instr, rnd) {
                Ok(s2) => (s2, Ok(())),
                Err(e) => (s1, Err(e)),
            },
        },
    }
}

/// The machine: registers, memory, call stack, timers, display buffer and
/// input latch, driven one fetch-decode-execute cycle at a time by `tick`.
pub struct C8 {
    v: Vec<u8>,
    i: u16,
    pc: u16,
    stack: Vec<u16>,
    delay: u8,
    sound: u8,
    mem: Vec<u8>,
    screen: Vec<bool>,
    keys: Vec<bool>,
    acc: u64,
}

impl View for C8 {
    type V = C8View;

    closed spec fn view(&self) -> C8View {
        C8View {
            v: self.v@,
            i: self.i,
            pc: self.pc,
            stack: self.stack@,
            delay: self.delay,
            sound: self.sound,
            mem: self.mem@,
            screen: self.screen@,
            keys: self.keys@,
            acc: self.acc,
        }
    }
}

impl Default for C8 {
    /// A fresh machine in its initial state.
    fn default() -> (c: Self)
        ensures
            c@ == initial_state(),
            c@.wf(),
    {
        let mut mem: Vec<u8> = Vec::new();
        let mut k: usize = 0;
        while k < 4096
            invariant
                k <= 4096,
                mem@.len() == k,
                forall|j: int| 0 <= j < k ==> mem@[j] == initial_mem()[j],
            decreases 4096 - k,
        {
            if k < 80 {
                mem.push(FONT[k]);
            } else {
                mem.push(0);
            }
            k += 1;
        }

        let mut v: Vec<u8> = Vec::new();
        let mut screen: Vec<bool> = Vec::new();
        let mut keys: Vec<bool> = Vec::new();
        let mut k: usize = 0;
        while k < 2048
            invariant
                k <= 2048,
                v@.len() == (if k < 16 { k } else { 16 }),
                keys@.len() == (if k < 16 { k } else { 16 }),
                screen@.len() == k,
                forall|j: int| 0 <= j < v@.len() ==> v@[j] == 0u8,
                forall|j: int| 0 <= j < keys@.len() ==> !keys@[j],
                forall|j: int| 0 <= j < k ==> !screen@[j],
            decreases 2048 - k,
        {
            if k < 16 {
                v.push(0);
                keys.push(false);
            }
            screen.push(false);
            k += 1;
        }

        let c = C8 { v, i: 0, pc: PROG_START, stack: Vec::new(), delay: 0, sound: 0, mem, screen, keys, acc: 0 };
        proof {
            assert(c@ =~= initial_state());
        }
        c
    }
}

/// What one fetch at `pc` yields: the four nibbles of the two bytes there,
/// or `OutOfBounds` where either byte lies past the end of memory.
pub open spec fn fetch_spec(s: C8View, pc: u16) -> Result<(u8, u8, u8, u8), Error> {
    if pc + 1 < 4096 {
        Ok(
            (
                (s.mem[pc as int] / 16) as u8,
                (s.mem[pc as int] % 16) as u8,
                (s.mem[pc as int + 1] / 16) as u8,
                (s.mem[pc as int + 1] % 16) as u8,
            ),
        )
    } else {
        Err(Error::OutOfBounds)
    }
}

/// Whether bit `k` (0 = least significant) of byte `b` is set.
pub open spec fn bit(b: u8, k: u8) -> bool {
    (b >> k) & 1 == 1
}

/// Row-major index of the screen pixel that column `col` of sprite row `row`
/// lands on when the sprite is drawn at (x, y); coordinates wrap around the
/// screen edges.
pub open spec fn px_idx(x: u8, y: u8, row: int, col: int) -> int {
    ((y + row) % 32) * 64 + ((x + col) % 64)
}

/// The screen and collision flag after XOR-blitting the first `ncols` pixels
/// of one sprite row: sprite byte `sb` drawn at (x, y), row `row`, leftmost
/// pixel in the byte's most significant bit. The flag is set exactly when a
/// pixel that was on is toggled off.
pub open spec fn draw_cols(
    screen: Seq<bool>,
    sb: u8,
    x: u8,
    y: u8,
    row: int,
    ncols: int,
) -> (Seq<bool>, bool)
    decreases ncols,
{
    if ncols <= 0 {
        (screen, false)
    } else {
        let prev = draw_cols(screen, sb, x, y, row, ncols - 1);
        let col = ncols - 1;
        let idx = px_idx(x, y, row, col);
        let spr = bit(sb, (7 - col) as u8);
        let oldp = prev.0[idx];
        (prev.0.update(idx, oldp ^ spr), prev.1 || (spr && oldp))
    }
}

/// The screen and collision flag after XOR-blitting the first `nrows` rows
/// of a sprite whose row bytes lie in memory from address `base`, drawn at
/// (x, y).
pub open spec fn draw_rows(
    screen: Seq<bool>,
    mem: Seq<u8>,
    base: int,
    x: u8,
    y: u8,
    nrows: int,
) -> (Seq<bool>, bool)
    decreases nrows,
{
    if nrows <= 0 {
        (screen, false)
    } else {
        let prev = draw_rows(screen, mem, base, x, y, nrows - 1);
        let rowres = draw_cols(prev.0, mem[base + nrows - 1], x, y, nrows - 1, 8);
        (rowres.0, prev.1 || rowres.1)
    }
}

/// The lowest pressed key index at or above `k`, if any, scanning the
/// 16-entry latch.
pub open spec fn first_key_from(keys: Seq<bool>, k: int) -> Option<int>
    decreases 16 - k,
{
    if k < 0 || k >= 16 {
        None
    } else if keys[k] {
        Some(k)
    } else {
        first_key_from(keys, k + 1)
    }
}

/// The lowest pressed key index, if any key is pressed at all.
pub open spec fn first_key(keys: Seq<bool>) -> Option<int> {
    first_key_from(keys, 0)
}

/// An all-dark display buffer.
pub open spec fn blank_screen() -> Seq<bool> {
    Seq::new(2048, |k: int| false)
}

/// Memory after a program load: the program bytes verbatim from the
/// program-start offset, everything else untouched.
pub open spec fn load_mem(mem: Seq<u8>, bytes: Seq<u8>) -> Seq<u8> {
    Seq::new(
        4096,
        |k: int|
            if 0x200 <= k < 0x200 + bytes.len() {
                bytes[k - 0x200]
            } else {
                mem[k]
            },
    )
}

impl C8 {
    /// Copies a program into memory starting at the program-start offset.
    /// The caller must ensure the program fits below the end of memory.
    pub fn load(&mut self, bytes: &[u8])
        requires
            old(self)@.wf(),
            bytes@.len() <= 0xE00,
        ensures
            final(self)@.wf(),
            final(self)@ == (C8View { mem: load_mem(old(self)@.mem, bytes@), ..old(self)@ }),
    {
        let n = bytes.len();
        let mut k: usize = 0;
        while k < n
            invariant
                k <= n,
                n == bytes@.len() <= 0xE00,
                self@.mem.len() == 4096,
                forall|j: int| 0x200 <= j < 0x200 + k ==> self@.mem[j] == bytes@[j - 0x200],
                forall|j: int|
                    0 <= j < 4096 && !(0x200 <= j < 0x200 + k) ==> self@.mem[j] == old(
                        self,
                    )@.mem[j],
                self@ == (C8View { mem: self@.mem, ..old(self)@ }),
            decreases n - k,
        {
            let b = *vstd::slice::slice_index_get(bytes, k);
            self.mem.set(0x200 + k, b);
            k += 1;
        }
        proof {
            assert(self@ =~= (C8View { mem: load_mem(old(self)@.mem, bytes@), ..old(self)@ }));
        }
    }

    /// Replaces the whole input latch with the host's fresh key states.
    pub fn set_keys(&mut self, keys: [bool; 16])
        requires
            old(self)@.wf(),
        ensures
            final(self)@.wf(),
            final(self)@ == (C8View { keys: keys@, ..old(self)@ }),
    {
        let mut k: usize = 0;
        while k < 16
            invariant
                k <= 16,
                self@.keys.len() == 16,
                forall|j: int| 0 <= j < k ==> self@.keys[j] == keys@[j],
                forall|j: int| k <= j < 16 ==> self@.keys[j] == old(self)@.keys[j],
                self@ == (C8View { keys: self@.keys, ..old(self)@ }),
            decreases 16 - k,
        {
            let b = keys[k];
            self.keys.set(k, b);
            k += 1;
        }
        proof {
            assert(self@ =~= (C8View { keys: keys@, ..old(self)@ }));
        }
    }

    /// XOR-blits an `h`-row sprite whose row bytes start at memory address
    /// `pixels` onto the screen at (x, y), wrapping at the screen edges, and
    /// reports whether any lit pixel was toggled off (a collision).
    pub fn draw_sprite(&mut self, x: u8, y: u8, h: u8, pixels: u16) -> (r: bool)
        requires
            old(self)@.wf(),
            h == 0 || pixels as int + h as int <= 4096,
        ensures
            final(self)@.wf(),
            final(self)@ == (C8View {
                screen: draw_rows(
                    old(self)@.screen,
                    old(self)@.mem,
                    pixels as int,
                    x,
                    y,
                    h as int,
                ).0,
                ..old(self)@
            }),
            r == draw_rows(old(self)@.screen, old(self)@.mem, pixels as int, x, y, h as int).1,
    {
        let ghost s0 = old(self)@;
        let mut hit = false;
        let mut row: usize = 0;
        while row < h as usize
            invariant
                s0.wf(),
                row <= h as int,
                h == 0 || pixels as int + h as int <= 4096,
                self@ == (C8View { screen: self@.screen, ..s0 }),
                self@.screen.len() == 2048,
                (self@.screen, hit) == draw_rows(s0.screen, s0.mem, pixels as int, x, y, row as int),
            decreases h as int - row,
        {
            let sb = self.mem[pixels as usize + row];
            let ghost row_base = draw_rows(s0.screen, s0.mem, pixels as int, x, y, row as int);
            let ghost base_hit = hit;
            let mut col: usize = 0;
            while col < 8
                invariant
                    s0.wf(),
                    col <= 8,
                    row < h as int,
                    pixels as int + h as int <= 4096,
                    sb == s0.mem[pixels as int + row as int],
                    self@ == (C8View { screen: self@.screen, ..s0 }),
                    self@.screen.len() == 2048,
                    row_base == draw_rows(s0.screen, s0.mem, pixels as int, x, y, row as int),
                    base_hit == row_base.1,
                    self@.screen == draw_cols(row_base.0, sb, x, y, row as int, col as int).0,
                    hit == (base_hit || draw_cols(row_base.0, sb, x, y, row as int, col as int).1),
                decreases 8 - col,
            {
                let sy = (y as usize + row) % 32;
                let sx = (x as usize + col) % 64;
                let idx = sy * 64 + sx;
                let sh = (7 - col) as u8;
                let spr = (sb >> sh) & 1 == 1;
                let old_px = self.screen[idx];
                self.screen.set(idx, old_px ^ spr);
                if spr && old_px {
                    hit = true;
                }
                col += 1;
            }
            row += 1;
        }
        hit
    }

    /// Turns every pixel of the display buffer off.
    fn clear_screen_buf(&mut self)
        requires
            old(self)@.wf(),
        ensures
            final(self)@.wf(),
            final(self)@ == (C8View { screen: blank_screen(), ..old(self)@ }),
    {
        let mut k: usize = 0;
        while k < 2048
            invariant
                k <= 2048,
                self@ == (C8View { screen: self@.screen, ..old(self)@ }),
                self@.screen.len() == 2048,
                forall|j: int| 0 <= j < k ==> !self@.screen[j],
            decreases 2048 - k,
        {
            self.screen.set(k, false);
            k += 1;
        }
        proof {
            assert(self@.screen =~= blank_screen());
        }
    }

    /// The lowest pressed key's index, or `None` while no key is down.
    fn first_pressed(&self) -> (r: Option<u8>)
        requires
            self@.wf(),
        ensures
            (match first_key(self@.keys) {
                Some(k) => r == Some(k as u8),
                None => r is None,
            }),
    {
        let mut k: usize = 0;
        while k < 16
            invariant
                k <= 16,
                self@.keys.len() == 16,
                first_key(self@.keys) == first_key_from(self@.keys, k as int),
            decreases 16 - k,
        {
            if self.keys[k] {
                return Some(k as u8);
            }
            k += 1;
        }
        None
    }

    /// Copies registers 0 through `x` inclusive out of memory, starting at
    /// the index register; the index register itself is untouched.
    fn copy_mem_to_regs(&mut self, x: u8)
        requires
            old(self)@.wf(),
            x < 16,
            old(self)@.i + x < 4096,
        ensures
            final(self)@.wf(),
            final(self)@ == (C8View {
                v: Seq::new(
                    16,
                    |k: int|
                        if 0 <= k <= x {
                            old(self)@.mem[old(self)@.i + k]
                        } else {
                            old(self)@.v[k]
                        },
                ),
                ..old(self)@
            }),
    {
        let base = self.i as usize;
        let mut k: usize = 0;
        while k <= x as usize
            invariant
                k <= x as int + 1,
                x < 16,
                base == old(self)@.i,
                base + x < 4096,
                self@ == (C8View { v: self@.v, ..old(self)@ }),
                self@.v.len() == 16,
                self@.mem.len() == 4096,
                forall|j: int| 0 <= j < k ==> self@.v[j] == old(self)@.mem[base + j],
                forall|j: int| k <= j < 16 ==> self@.v[j] == old(self)@.v[j],
            decreases x as int + 1 - k,
        {
            let b = self.mem[base + k];
            self.v.set(k, b);
            k += 1;
        }
        proof {
            assert(self@.v =~= Seq::new(
                16,
                |k: int|
                    if 0 <= k <= x {
                        old(self)@.mem[old(self)@.i + k]
                    } else {
                        old(self)@.v[k]
                    },
            ));
        }
    }

    /// Copies registers 0 through `x` inclusive into memory, starting at the
    /// index register; the index register itself is untouched.
    fn copy_regs_to_mem(&mut self, x: u8)
        requires
            old(self)@.wf(),
            x < 16,
            old(self)@.i + x < 4096,
        ensures
            final(self)@.wf(),
            final(self)@ == (C8View {
                mem: Seq::new(
                    4096,
                    |k: int|
                        if old(self)@.i <= k <= old(self)@.i + x {
                            old(self)@.v[k - old(self)@.i]
                        } else {
                            old(self)@.mem[k]
                        },
                ),
                ..old(self)@
            }),
    {
        let base = self.i as usize;
        let mut k: usize = 0;
        while k <= x as usize
            invariant
                k <= x as int + 1,
                x < 16,
                base == old(self)@.i,
                base + x < 4096,
                self@ == (C8View { mem: self@.mem, ..old(self)@ }),
                self@.v.len() == 16,
                self@.mem.len() == 4096,
                forall|j: int| base <= j < base + k ==> self@.mem[j] == old(self)@.v[j - base],
                forall|j: int|
                    0 <= j < 4096 && !(base <= j < base + k) ==> self@.mem[j] == old(self)@.mem[j],
            decreases x as int + 1 - k,
        {
            let b = self.v[k];
            self.mem.set(base + k, b);
            k += 1;
        }
        proof {
            assert(self@.mem =~= Seq::new(
                4096,
                |k: int|
                    if old(self)@.i <= k <= old(self)@.i + x {
                        old(self)@.v[k - old(self)@.i]
                    } else {
                        old(self)@.mem[k]
                    },
            ));
        }
    }

    /// Read-only view of the display buffer for the host to render.
    pub fn screen(&self) -> (r: &Vec<bool>)
        ensures
            r@ == self@.screen,
    {
        &self.screen
    }

    /// Read-only view of memory, for diagnostics.
    pub fn mem(&self) -> (r: &Vec<u8>)
        ensures
            r@ == self@.mem,
    {
        &self.mem
    }

    /// The program counter.
    pub fn pc(&self) -> (r: u16)
        ensures
            r == self@.pc,
    {
        self.pc
    }

    /// The index register.
    pub fn i(&self) -> (r: u16)
        ensures
            r == self@.i,
    {
        self.i
    }

    /// The delay timer's current value.
    pub fn delay(&self) -> (r: u8)
        ensures
            r == self@.delay,
    {
        self.delay
    }

    /// The sound timer's current value.
    pub fn sound(&self) -> (r: u8)
        ensures
            r == self@.sound,
    {
        self.sound
    }

    /// A general-purpose register's value; rejects indices outside the
    /// 16-entry register file.
    pub fn v(&self, idx: u8) -> (r: Result<u8, Error>)
        requires
            self@.wf(),
        ensures
            idx < 16 ==> r == Ok::<u8, Error>(self@.v[idx as int]),
            idx >= 16 ==> r == Err::<u8, Error>(Error::OutOfBounds),
    {
        if idx < 16 {
            Ok(self.v[idx as usize])
        } else {
            Err(Error::OutOfBounds)
        }
    }

    /// Reads the two opcode bytes at `pc` and `pc + 1` and splits each into
    /// its high and low nibble; the only place the program counter is
    /// checked against the memory bounds.
    pub fn fetch(&self, pc: u16) -> (r: Result<(u8, u8, u8, u8), Error>)
        requires
            self@.wf(),
        ensures
            r == fetch_spec(self@, pc),
            (r matches Ok(op) ==> op.0 < 16 && op.1 < 16 && op.2 < 16 && op.3 < 16),
    {
        if pc as usize + 1 >= 4096 {
            return Err(Error::OutOfBounds);
        }
        let a = self.mem[pc as usize];
        let b = self.mem[pc as usize + 1];
        proof {
            assert((a >> 4) & 0xF == a / 16 && a & 0xF == a % 16) by (bit_vector);
            assert((b >> 4) & 0xF == b / 16 && b & 0xF == b % 16) by (bit_vector);
        }
        Ok(((a >> 4) & 0xF, a & 0xF, (b >> 4) & 0xF, b & 0xF))
    }

    /// Matches a four-nibble pattern against the opcode table; pure, and
    /// fails with `InvalidInstr` on any pattern the table lacks.
    pub fn decode(&self, op: (u8, u8, u8, u8)) -> (r: Result<Instr, Error>)
        requires
            op.0 < 16,
            op.1 < 16,
            op.2 < 16,
            op.3 < 16,
        ensures
            r == (match decode_spec(op) {
                Some(i) => Ok::<Instr, Error>(i),
                None => Err::<Instr, Error>(Error::InvalidInstr(op.0, op.1, op.2, op.3)),
            }),
            (r matches Ok(i) ==> wf_instr(i)),
    {
        let (t, c, b, a) = op;
        let r = match op {
            (0x0, 0x0, 0xE, 0x0) => Instr::ClearScreen,
            (0x0, 0x0, 0xE, 0xE) => Instr::Return,
            (0x0, _, _, _) => Instr::RcaCall(u4s_to_u16(a, b, c, 0)),
            (0x1, _, _, _) => Instr::Jump(u4s_to_u16(a, b, c, 0)),
            (0x2, _, _, _) => Instr::Call(u4s_to_u16(a, b, c, 0)),
            (0x3, _, _, _) => Instr::SkipIfEqConst(V(c), u4s_to_u8(a, b)),
            (0x4, _, _, _) => Instr::SkipIfNotEqConst(V(c), u4s_to_u8(a, b)),
            (0x5, _, _, 0x0) => Instr::SkipIfEqReg(V(c), V(b)),
            (0x6, _, _, _) => Instr::SetConst(V(c), u4s_to_u8(a, b)),
            (0x7, _, _, _) => Instr::AddConst(V(c), u4s_to_u8(a, b)),
            (0x8, _, _, 0x0) => Instr::SetReg(V(c), V(b)),
            (0x8, _, _, 0x1) => Instr::OrReg(V(c), V(b)),
            (0x8, _, _, 0x2) => Instr::AndReg(V(c), V(b)),
            (0x8, _, _, 0x3) => Instr::XorReg(V(c), V(b)),
            (0x8, _, _, 0x4) => Instr::AddReg(V(c), V(b)),
            (0x8, _, _, 0x5) => Instr::SubReg(V(c), V(b)),
            (0x8, _, _, 0x6) => Instr::ShrReg(V(c), V(b)),
            (0x8, _, _, 0x7) => Instr::NegReg(V(c), V(b)),
            (0x8, _, _, 0xE) => Instr::ShlReg(V(c), V(b)),
            (0x9, _, _, 0x0) => Instr::SkipIfNotEqReg(V(c), V(b)),
            (0xA, _, _, _) => Instr::SetIndex(u4s_to_u16(a, b, c, 0)),
            (0xB, _, _, _) => Instr::JumpPlusV0(u4s_to_u16(a, b, c, 0)),
            (0xC, _, _, _) => Instr::RandomAnd(V(c), u4s_to_u8(a, b)),
            (0xD, _, _, _) => Instr::Draw(V(c), V(b), a),
            (0xE, _, 0x9, 0xE) => Instr::SkipIfKey(V(c)),
            (0xE, _, 0xA, 0x1) => Instr::SkipIfNotKey(V(c)),
            (0xF, _, 0x0, 0x7) => Instr::GetDelay(V(c)),
            (0xF, _, 0x0, 0xA) => Instr::GetKey(V(c)),
            (0xF, _, 0x1, 0x5) => Instr::SetDelay(V(c)),
            (0xF, _, 0x1, 0x8) => Instr::SetSound(V(c)),
            (0xF, _, 0x1, 0xE) => Instr::AddIndex(V(c)),
            (0xF, _, 0x2, 0x9) => Instr::SetIndexFont(V(c)),
            (0xF, _, 0x3, 0x3) => Instr::StoreBcd(V(c)),
            (0xF, _, 0x5, 0x5) => Instr::Store(V(c)),
            (0xF, _, 0x6, 0x5) => Instr::Load(V(c)),
            _ => {
                return Err(Error::InvalidInstr(t, c, b, a));
            },
        };
        Ok(r)
    }

    /// Executes one decoded instruction, realising `step_spec`: on success
    /// the state becomes the specified next state; on an error nothing is
    /// changed, so the program counter still names the faulting instruction.
    /// `rnd` is the byte drawn from the host's random source; only the
    /// random-mask instruction reads it.
    pub fn execute(&mut self, instr: Instr, rnd: u8) -> (r: Result<(), Error>)
        requires
            old(self)@.wf(),
            wf_instr(instr),
            old(self)@.pc <= 4094,
        ensures
            final(self)@.wf(),
            (match step_spec(old(self)@, instr, rnd) {
                Ok(s2) => r == Ok::<(), Error>(()) && final(self)@ == s2,
                Err(e) => r == Err::<(), Error>(e) && final(self)@ == old(self)@,
            }),
    {
        match instr {
            Instr::RcaCall(_)
            | Instr::ClearScreen
            | Instr::Return
            | Instr::Jump(_)
            | Instr::Call(_)
            | Instr::SkipIfEqConst(_, _)
            | Instr::SkipIfNotEqConst(_, _)
            | Instr::SkipIfEqReg(_, _)
            | Instr::SkipIfNotEqReg(_, _) => self.exec_flow(instr, rnd),
            Instr::SetConst(_, _)
            | Instr::AddConst(_, _)
            | Instr::SetReg(_, _)
            | Instr::OrReg(_, _)
            | Instr::AndReg(_, _)
            | Instr::XorReg(_, _)
            | Instr::AddReg(_, _)
            | Instr::SubReg(_, _)
            | Instr::NegReg(_, _)
            | Instr::ShrReg(_, _)
            | Instr::ShlReg(_, _) => self.exec_alu(instr, rnd),
            Instr::SetIndex(_)
            | Instr::AddIndex(_)
            | Instr::SetIndexFont(_)
            | Instr::JumpPlusV0(_)
            | Instr::RandomAnd(_, _)
            | Instr::Draw(_, _, _)
            | Instr::Load(_)
            | Instr::Store(_)
            | Instr::StoreBcd(_) => self.exec_mem(instr, rnd),
            Instr::GetKey(_)
            | Instr::SkipIfKey(_)
            | Instr::SkipIfNotKey(_)
            | Instr::GetDelay(_)
            | Instr::SetDelay(_)
            | Instr::SetSound(_) => self.exec_io(instr, rnd),
        }
    }

    /// Control-flow instructions: the external-call family, clear-screen,
    /// return, jumps, calls and the four conditional skips.
    fn exec_flow(&mut self, instr: Instr, rnd: u8) -> (r: Result<(), Error>)
        requires
            old(self)@.wf(),
            wf_instr(instr),
            old(self)@.pc <= 4094,
            instr is RcaCall || instr is ClearScreen || instr is Return || instr is Jump
                || instr is Call || instr is SkipIfEqConst || instr is SkipIfNotEqConst
                || instr is SkipIfEqReg || instr is SkipIfNotEqReg,
        ensures
            final(self)@.wf(),
            (match step_spec(old(self)@, instr, rnd) {
                Ok(s2) => r == Ok::<(), Error>(()) && final(self)@ == s2,
                Err(e) => r == Err::<(), Error>(e) && final(self)@ == old(self)@,
            }),
    {
        let mut advance: bool = true;
        match instr {
            Instr::RcaCall(addr) => {
                return Err(Error::NoSuchRcaCall(addr));
            },
            Instr::ClearScreen => {
                self.clear_screen_buf();
            },
            Instr::Return => {
                match self.stack.pop() {
                    Some(addr) => self.pc = addr,
                    None => {
                        return Err(Error::NoReturnAddr);
                    },
                }
            },
            Instr::Jump(addr) => {
                self.pc = addr;
                advance = false;
            },
            Instr::Call(addr) => {
                self.stack.push(self.pc);
                self.pc = addr;
                advance = false;
            },
            Instr::SkipIfEqConst(x, k) => {
                if self.v[x.0 as usize] == k {
                    self.pc += 2;
                }
            },
            Instr::SkipIfNotEqConst(x, k) => {
                if self.v[x.0 as usize] != k {
                    self.pc += 2;
                }
            },
            Instr::SkipIfEqReg(x, y) => {
                if self.v[x.0 as usize] == self.v[y.0 as usize] {
                    self.pc += 2;
                }
            },
            Instr::SkipIfNotEqReg(x, y) => {
                if self.v[x.0 as usize] != self.v[y.0 as usize] {
                    self.pc += 2;
                }
            },
            _ => {
                proof {
                    assert(false);
                }
            },
        }

        if advance {
            self.pc += 2;
        }
        Ok(())
    }

    /// Register-to-register and register-immediate arithmetic and logic,
    /// including the carry, borrow and shifted-out-bit conventions on
    /// register 15.
    fn exec_alu(&mut self, instr: Instr, rnd: u8) -> (r: Result<(), Error>)
        requires
            old(self)@.wf(),
            wf_instr(instr),
            old(self)@.pc <= 4094,
            instr is SetConst || instr is AddConst || instr is SetReg || instr is OrReg
                || instr is AndReg || instr is XorReg || instr is AddReg || instr is SubReg
                || instr is NegReg || instr is ShrReg || instr is ShlReg,
        ensures
            final(self)@.wf(),
            (match step_spec(old(self)@, instr, rnd) {
                Ok(s2) => r == Ok::<(), Error>(()) && final(self)@ == s2,
                Err(e) => r == Err::<(), Error>(e) && final(self)@ == old(self)@,
            }),
    {
        match instr {
            Instr::SetConst(_, _)
            | Instr::AddConst(_, _)
            | Instr::SetReg(_, _)
            | Instr::OrReg(_, _)
            | Instr::AndReg(_, _)
            | Instr::XorReg(_, _) => self.exec_alu_move(instr),
            _ => self.exec_alu_flagged(instr),
        }
    }

    /// Register moves, immediate loads and the plain logical operations;
    /// none of these touch the flag register.
    fn exec_alu_move(&mut self, instr: Instr) -> (r: Result<(), Error>)
        requires
            old(self)@.wf(),
            wf_instr(instr),
            old(self)@.pc <= 4094,
            instr is SetConst || instr is AddConst || instr is SetReg || instr is OrReg
                || instr is AndReg || instr is XorReg,
        ensures
            final(self)@.wf(),
            (match step_spec(old(self)@, instr, 0) {
                Ok(s2) => r == Ok::<(), Error>(()) && final(self)@ == s2,
                Err(e) => r == Err::<(), Error>(e) && final(self)@ == old(self)@,
            }),
    {
        match instr {
            Instr::SetConst(x, k) => {
                self.v.set(x.0 as usize, k);
            },
            Instr::AddConst(x, k) => {
                let sum = self.v[x.0 as usize] as u16 + k as u16;
                self.v.set(x.0 as usize, (sum % 256) as u8);
            },
            Instr::SetReg(x, y) => {
                let vy = self.v[y.0 as usize];
                self.v.set(x.0 as usize, vy);
            },
            Instr::OrReg(x, y) => {
                let b = self.v[x.0 as usize] | self.v[y.0 as usize];
                self.v.set(x.0 as usize, b);
            },
            Instr::AndReg(x, y) => {
                let b = self.v[x.0 as usize] & self.v[y.0 as usize];
                self.v.set(x.0 as usize, b);
            },
            Instr::XorReg(x, y) => {
                let b = self.v[x.0 as usize] ^ self.v[y.0 as usize];
                self.v.set(x.0 as usize, b);
            },
            _ => {
                proof {
                    assert(false);
                }
            },
        }

        self.pc += 2;
        Ok(())
    }

    /// The arithmetic and shift operations that report into register 15:
    /// carry on add, borrow on the two subtract forms, and the shifted-out
    /// bit on the shifts, which read their second operand register.
    #[verifier::rlimit(50)]
    fn exec_alu_flagged(&mut self, instr: Instr) -> (r: Result<(), Error>)
        requires
            old(self)@.wf(),
            wf_instr(instr),
            old(self)@.pc <= 4094,
            instr is AddReg || instr is SubReg || instr is NegReg || instr is ShrReg
                || instr is ShlReg,
        ensures
            final(self)@.wf(),
            (match step_spec(old(self)@, instr, 0) {
                Ok(s2) => r == Ok::<(), Error>(()) && final(self)@ == s2,
                Err(e) => r == Err::<(), Error>(e) && final(self)@ == old(self)@,
            }),
    {
        match instr {
            Instr::AddReg(x, y) => {
                let sum = self.v[x.0 as usize] as u16 + self.v[y.0 as usize] as u16;
                self.v.set(x.0 as usize, (sum % 256) as u8);
                self.v.set(15, if sum > 255 { 1 } else { 0 });
            },
            Instr::SubReg(x, y) => {
                let vx = self.v[x.0 as usize];
                let vy = self.v[y.0 as usize];
                let val = if vx >= vy {
                    vx - vy
                } else {
                    ((vx as u16 + 256) - vy as u16) as u8
                };
                proof {
                    assert(val == (vx - vy) % 256);
                }
                self.v.set(x.0 as usize, val);
                self.v.set(15, if vx >= vy { 1 } else { 0 });
            },
            Instr::NegReg(x, y) => {
                let vx = self.v[x.0 as usize];
                let vy = self.v[y.0 as usize];
                let val = if vy >= vx {
                    vy - vx
                } else {
                    ((vy as u16 + 256) - vx as u16) as u8
                };
                proof {
                    assert(val == (vy - vx) % 256);
                }
                self.v.set(x.0 as usize, val);
                self.v.set(15, if vy >= vx { 1 } else { 0 });
            },
            Instr::ShrReg(x, y) => {
                let vy = self.v[y.0 as usize];
                self.v.set(15, vy & 1);
                self.v.set(x.0 as usize, vy >> 1);
            },
            Instr::ShlReg(x, y) => {
                let vy = self.v[y.0 as usize];
                self.v.set(15, (vy >> 7) & 1);
                self.v.set(x.0 as usize, vy << 1);
            },
            _ => {
                proof {
                    assert(false);
                }
            },
        }

        self.pc += 2;
        Ok(())
    }

    /// Index-register, memory and display instructions: index arithmetic,
    /// the random mask, sprite drawing, register block transfers and the
    /// binary-coded-decimal store.
    fn exec_mem(&mut self, instr: Instr, rnd: u8) -> (r: Result<(), Error>)
        requires
            old(self)@.wf(),
            wf_instr(instr),
            old(self)@.pc <= 4094,
            instr is SetIndex || instr is AddIndex || instr is SetIndexFont
                || instr is JumpPlusV0 || instr is RandomAnd || instr is Draw
                || instr is Load || instr is Store || instr is StoreBcd,
        ensures
            final(self)@.wf(),
            (match step_spec(old(self)@, instr, rnd) {
                Ok(s2) => r == Ok::<(), Error>(()) && final(self)@ == s2,
                Err(e) => r == Err::<(), Error>(e) && final(self)@ == old(self)@,
            }),
    {
        let mut advance: bool = true;
        match instr {
            Instr::SetIndex(addr) => {
                self.i = addr;
            },
            Instr::AddIndex(x) => {
                let sum = self.i as u32 + self.v[x.0 as usize] as u32;
                self.i = (sum % 65536) as u16;
                self.v.set(15, if sum > 0xFFF { 1 } else { 0 });
            },
            Instr::SetIndexFont(x) => {
                self.i = self.v[x.0 as usize] as u16 * 5;
            },
            Instr::JumpPlusV0(addr) => {
                self.pc = addr + self.v[0] as u16;
                advance = false;
            },
            Instr::RandomAnd(x, k) => {
                self.v.set(x.0 as usize, rnd & k);
            },
            Instr::Draw(x, y, h) => {
                let xv = self.v[x.0 as usize];
                let yv = self.v[y.0 as usize];
                if h > 0 && self.i as usize + h as usize > 4096 {
                    return Err(Error::OutOfBounds);
                }
                let pixels = self.i;
                let hit = self.draw_sprite(xv, yv, h, pixels);
                self.v.set(15, if hit { 1 } else { 0 });
            },
            Instr::Load(x) => {
                if self.i as usize + x.0 as usize >= 4096 {
                    return Err(Error::OutOfBounds);
                }
                self.copy_mem_to_regs(x.0);
            },
            Instr::Store(x) => {
                if self.i as usize + x.0 as usize >= 4096 {
                    return Err(Error::OutOfBounds);
                }
                self.copy_regs_to_mem(x.0);
            },
            Instr::StoreBcd(x) => {
                if self.i > 4093 {
                    return Err(Error::OutOfBounds);
                }
                let vx = self.v[x.0 as usize];
                let base = self.i as usize;
                self.mem.set(base, vx / 100);
                self.mem.set(base + 1, (vx / 10) % 10);
                self.mem.set(base + 2, vx % 10);
            },
            _ => {
                proof {
                    assert(false);
                }
            },
        }

        if advance {
            self.pc += 2;
        }
        Ok(())
    }

    /// Input-pad and timer instructions: the blocking key wait, the two
    /// key-conditional skips, and the delay and sound timer transfers.
    fn exec_io(&mut self, instr: Instr, rnd: u8) -> (r: Result<(), Error>)
        requires
            old(self)@.wf(),
            wf_instr(instr),
            old(self)@.pc <= 4094,
            instr is GetKey || instr is SkipIfKey || instr is SkipIfNotKey
                || instr is GetDelay || instr is SetDelay || instr is SetSound,
        ensures
            final(self)@.wf(),
            (match step_spec(old(self)@, instr, rnd) {
                Ok(s2) => r == Ok::<(), Error>(()) && final(self)@ == s2,
                Err(e) => r == Err::<(), Error>(e) && final(self)@ == old(self)@,
            }),
    {
        let mut advance: bool = true;
        match instr {
            Instr::GetKey(x) => {
                match self.first_pressed() {
                    Some(k) => self.v.set(x.0 as usize, k),
                    None => advance = false,
                }
            },
            Instr::SkipIfKey(x) => {
                let idx = self.v[x.0 as usize];
                if idx >= 16 {
                    return Err(Error::OutOfBounds);
                }
                if self.keys[idx as usize] {
                    self.pc += 2;
                }
            },
            Instr::SkipIfNotKey(x) => {
                let idx = self.v[x.0 as usize];
                if idx >= 16 {
                    return Err(Error::OutOfBounds);
                }
                if !self.keys[idx as usize] {
                    self.pc += 2;
                }
            },
            Instr::GetDelay(x) => {
                let t = self.delay;
                self.v.set(x.0 as usize, t);
            },
            Instr::SetDelay(x) => {
                self.delay = self.v[x.0 as usize];
            },
            Instr::SetSound(x) => {
                self.sound = self.v[x.0 as usize];
            },
            _ => {
                proof {
                    assert(false);
                }
            },
        }

        if advance {
            self.pc += 2;
        }
        Ok(())
    }

    /// Advances the machine by one cycle, given the wall-clock time elapsed
    /// since the last call: updates the timer accumulator, then performs one
    /// fetch-decode-execute step, as `tick_spec` describes for the byte the
    /// random source happened to hand out. Any error is returned to the
    /// host with the program counter still at the faulting instruction.
    pub fn tick(&mut self, nanos: u64) -> (r: Result<(), Error>)
        requires
            old(self)@.wf(),
        ensures
            final(self)@.wf(),
            exists|rnd: u8| (final(self)@, r) == tick_spec(old(self)@, nanos, rnd),
    {
        let acc2 = if nanos > u64::MAX - self.acc {
            u64::MAX
        } else {
            self.acc + nanos
        };
        if acc2 > PULSE_NS {
            self.delay = if self.delay == 0 {
                0
            } else {
                self.delay - 1
            };
            self.sound = if self.sound == 0 {
                0
            } else {
                self.sound - 1
            };
            self.acc = 0;
        } else {
            self.acc = acc2;
        }
        proof {
            assert(self@ == pulse_spec(old(self)@, nanos));
        }

        let pc = self.pc;
        let op = match self.fetch(pc) {
            Ok(op) => op,
            Err(e) => {
                proof {
                    assert((self@, Err::<(), Error>(e)) == tick_spec(old(self)@, nanos, 0));
                }
                return Err(e);
            },
        };
        let instr = match self.decode(op) {
            Ok(i) => i,
            Err(e) => {
                proof {
                    assert((self@, Err::<(), Error>(e)) == tick_spec(old(self)@, nanos, 0));
                }
                return Err(e);
            },
        };
        let rnd: u8 = rand::random::<u8>();
        let res = self.execute(instr, rnd);
        proof {
            assert((self@, res) == tick_spec(old(self)@, nanos, rnd));
        }
        res
    }

    /// A memory byte; rejects addresses outside the 4096-byte memory.
    pub fn mem_at(&self, addr: u16) -> (r: Result<u8, Error>)
        requires
            self@.wf(),
        ensures
            addr < 4096 ==> r == Ok::<u8, Error>(self@.mem[addr as int]),
            addr >= 4096 ==> r == Err::<u8, Error>(Error::OutOfBounds),
    {
        if addr < 4096 {
            Ok(self.mem[addr as usize])
        } else {
            Err(Error::OutOfBounds)
        }
    }
}

/// Scanning from `k` finds no pressed key when the whole latch is clear.
proof fn lemma_no_key_from(keys: Seq<bool>, k: int)
    requires
        0 <= k <= 16,
        forall|j: int| 0 <= j < 16 ==> !keys[j],
    ensures
        first_key_from(keys, k) is None,
    decreases 16 - k,
{
    if k < 16 {
        lemma_no_key_from(keys, k + 1);
    }
}

/// Scanning from `j` finds exactly key `k` when `k` is pressed and every key
/// below it is released.
proof fn lemma_first_key_below(keys: Seq<bool>, j: int, k: int)
    requires
        0 <= j <= k < 16,
        keys[k],
        forall|i: int| 0 <= i < k ==> !keys[i],
    ensures
        first_key_from(keys, j) == Some(k),
    decreases 16 - j,
{
    if j < k {
        lemma_first_key_below(keys, j + 1, k);
    }
}

/// Law: after a clear-screen instruction, every pixel of the display buffer
/// reads as off.
pub proof fn lemma_clear_screen_blanks(s: C8View, rnd: u8)
    requires
        s.wf(),
    ensures
        (match step_spec(s, Instr::ClearScreen, rnd) {
            Ok(s2) => s2.screen.len() == 2048 && forall|p: int| 0 <= p < 2048 ==> !s2.screen[p],
            Err(_) => false,
        }),
{
}

/// Law: a blocking key wait with an empty input latch leaves the machine,
/// its program counter included, exactly as it was, so the same instruction
/// is re-attempted on the next cycle.
pub proof fn lemma_key_wait_stalls(s: C8View, x: V, rnd: u8)
    requires
        s.wf(),
        x.0 < 16,
        forall|k: int| 0 <= k < 16 ==> !s.keys[k],
    ensures
        step_spec(s, Instr::GetKey(x), rnd) == Ok::<C8View, Error>(s),
{
    lemma_no_key_from(s.keys, 0);
}

/// Law: once a key is down, a blocking key wait writes the lowest pressed
/// key index into its target register and advances the program counter by
/// one instruction.
pub proof fn lemma_key_wait_resumes(s: C8View, x: V, rnd: u8, k: int)
    requires
        s.wf(),
        x.0 < 16,
        0 <= k < 16,
        s.keys[k],
        forall|i: int| 0 <= i < k ==> !s.keys[i],
    ensures
        step_spec(s, Instr::GetKey(x), rnd) == Ok::<C8View, Error>(
            C8View { v: s.v.update(x.0 as int, k as u8), pc: (s.pc + 2) as u16, ..s },
        ),
{
    lemma_first_key_below(s.keys, 0, k);
}

/// Law: the 60 Hz timer cadence. Once the accumulated elapsed time passes
/// one period, each non-zero timer goes down by exactly one (a zero timer
/// stays at zero) and the accumulator resets; while the accumulated time is
/// still within the period, the timers hold their values and the elapsed
/// time is only accumulated.
pub proof fn lemma_timer_cadence(s: C8View, nanos: u64)
    ensures
        s.acc + nanos > PULSE_NS ==> pulse_spec(s, nanos) == (C8View {
            delay: if s.delay == 0 { 0u8 } else { (s.delay - 1) as u8 },
            sound: if s.sound == 0 { 0u8 } else { (s.sound - 1) as u8 },
            acc: 0u64,
            ..s
        }),
        s.acc + nanos <= PULSE_NS ==> pulse_spec(s, nanos) == (C8View {
            acc: (s.acc + nanos) as u64,
            ..s
        }),
{
}

/// Law: a return instruction with an empty call stack fails with
/// `NoReturnAddr`; with `execute`'s guarantee that a failing instruction
/// changes nothing, the program counter stays at the return instruction.
pub proof fn lemma_return_empty_stack(s: C8View, rnd: u8)
    requires
        s.wf(),
        s.stack.len() == 0,
    ensures
        step_spec(s, Instr::Return, rnd) == Err::<C8View, Error>(Error::NoReturnAddr),
{
}

/// Law: the random source influences nothing but the random-mask
/// instruction; every other instruction's effect is the same whatever byte
/// the source hands out.
pub proof fn lemma_step_ignores_randomness(s: C8View, instr: Instr, r1: u8, r2: u8)
    requires
        !(instr is RandomAnd),
    ensures
        step_spec(s, instr, r1) == step_spec(s, instr, r2),
{
}

/// Law: whenever a cycle fails, the program counter afterwards still names
/// the faulting instruction's address.
pub proof fn lemma_tick_error_preserves_pc(s: C8View, nanos: u64, rnd: u8)
    ensures
        tick_spec(s, nanos, rnd).1 is Err ==> tick_spec(s, nanos, rnd).0.pc == s.pc,
{
}

} // verus!
