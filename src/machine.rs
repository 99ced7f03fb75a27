//! The machine state and the execution engine.
use vstd::prelude::*;

use crate::display::{pixel_char, pixel_on, row_text, rows_text, screen_text, PIXEL_OFF, PIXEL_ON};
use crate::font::{font_glyphs, font_table};
use crate::instruction::{decode, decoded, Instruction};
use crate::rng::random_byte;
use crate::sprite::{draw_rows, last_row, FRAMEBUFFER_START};

verus! {

/// Bytes of addressable memory.
pub const MEMORY_SIZE: usize = 4096;

/// Address at which programs are loaded and execution starts.
pub const PROGRAM_START: u16 = 0x200;

/// Depth of the call stack.
pub const STACK_DEPTH: usize = 16;

/// Why the machine cannot go on.
#[derive(Debug, Clone, Copy, PartialEq, Eq, Structural)]
pub enum FaultKind {
    /// The program counter left addressable memory.
    ProgramCounterOutOfBounds,
    /// An instruction addressed memory past its end.
    MemoryOutOfBounds,
    /// A call with all sixteen stack slots in use.
    StackOverflow,
    /// A return with an empty call stack.
    StackUnderflow,
    /// A font glyph was asked for a register value of 16 or more.
    InvalidFontGlyph,
    /// The word fetched encodes no supported instruction.
    UnknownOpcode,
}

/// A fatal condition, with the address of the faulting instruction and the
/// instruction word (absent when the word could not be fetched).
#[derive(Debug, Clone, Copy, PartialEq, Eq)]
pub struct Fault {
    pub kind: FaultKind,
    pub pc: u16,
    pub instruction: Option<u16>,
}

/// The mathematical state of a machine.
pub struct Chip8Model {
    pub memory: Seq<u8>,
    pub display_updated: bool,
    pub sound_active: bool,
    pub pc: u16,
    pub i: u16,
    pub v: Seq<u8>,
    pub delay_timer: u8,
    pub sound_timer: u8,
    pub sp: usize,
    pub stack: Seq<u16>,
    pub keypad: Seq<bool>,
}

/// `pc + d` in 16-bit arithmetic.
pub open spec fn pc_plus(pc: u16, d: int) -> u16 {
    ((pc + d) % 0x10000) as u16
}

/// The lowest index `k >= from` of a pressed key, if any.
pub open spec fn first_pressed(keys: Seq<bool>, from: int) -> Option<u8>
    decreases 16 - from,
{
    if from >= 16 || from < 0 {
        None
    } else if keys[from] {
        Some(from as u8)
    } else {
        first_pressed(keys, from + 1)
    }
}

/// `mem` with `bytes` written from address `at` on.
pub open spec fn overwritten(mem: Seq<u8>, at: int, bytes: Seq<u8>) -> Seq<u8> {
    Seq::new(mem.len(), |a: int| if at <= a < at + bytes.len() { bytes[a - at] } else { mem[a] })
}

/// The three decimal digits of `b`, most significant first.
pub open spec fn bcd_digits(b: u8) -> Seq<u8> {
    seq![b / 100, (b / 10) % 10, b % 10]
}

impl Chip8Model {
    /// The sizes of the fixed arrays, and a stack pointer within the stack.
    pub open spec fn wf(self) -> bool {
        &&& self.memory.len() == MEMORY_SIZE
        &&& self.v.len() == 16
        &&& self.stack.len() == STACK_DEPTH
        &&& self.keypad.len() == 16
        &&& self.sp <= STACK_DEPTH
    }

    /// The 256 bytes of the framebuffer region.
    pub open spec fn framebuffer(self) -> Seq<u8> {
        self.memory.subrange(FRAMEBUFFER_START as int, MEMORY_SIZE as int)
    }

    /// The state with `pc` moved on by one instruction when `cond` holds.
    pub open spec fn skip_if(self, cond: bool) -> Chip8Model {
        if cond {
            Chip8Model { pc: pc_plus(self.pc, 2), ..self }
        } else {
            self
        }
    }

    /// The state with register `x` set to `b`.
    pub open spec fn set_reg(self, x: u8, b: u8) -> Chip8Model {
        Chip8Model { v: self.v.update(x as int, b), ..self }
    }

    /// The state with `VF` set to `f`, then register `x` set to `b`.
    pub open spec fn set_flag_reg(self, f: u8, x: u8, b: u8) -> Chip8Model {
        Chip8Model { v: self.v.update(15, f).update(x as int, b), ..self }
    }

    /// The state with `bytes` written from address `at` on, marking the display
    /// changed when a written address lies in the framebuffer.
    pub open spec fn store(self, at: int, bytes: Seq<u8>) -> Chip8Model {
        Chip8Model {
            memory: overwritten(self.memory, at, bytes),
            display_updated: self.display_updated || at + bytes.len() > FRAMEBUFFER_START,
            ..self
        }
    }
}

/// The instruction word at `pc`, if both of its bytes are in memory.
pub open spec fn fetched(s: Chip8Model) -> Option<u16> {
    if s.pc + 1 < MEMORY_SIZE {
        Some((s.memory[s.pc as int] * 256 + s.memory[s.pc + 1]) as u16)
    } else {
        None
    }
}

/// The effect of a sprite draw: a fault when a sprite row that is drawn lies
/// past the end of memory; else the drawn memory and `VF` set to the collision flag.
pub open spec fn draw_spec(s: Chip8Model, x: u8, y: u8, n: u8) -> Result<Chip8Model, FaultKind> {
    let px = s.v[x as int] % 64;
    let py = s.v[y as int] % 32;
    let s1 = Chip8Model { display_updated: true, ..s };
    if s.i + last_row(py as int, n as int) >= MEMORY_SIZE {
        Err(FaultKind::MemoryOutOfBounds)
    } else {
        let (m, hit) = draw_rows(s.memory, s.i as int, px as int, py as int, n as int, 0, false);
        Ok(Chip8Model { memory: m, v: s.v.update(15, if hit { 1u8 } else { 0u8 }), ..s1 })
    }
}

/// What one instruction does to a state whose `pc` already points past it;
/// `rnd` is the random byte that `CXNN` uses.
pub open spec fn execute_spec(s: Chip8Model, ins: Instruction, rnd: u8) -> Result<
    Chip8Model,
    FaultKind,
> {
    let v = s.v;
    match ins {
        Instruction::ClearScreen => Ok(
            Chip8Model {
                memory: Seq::new(
                    s.memory.len(),
                    |a: int|
                        if a >= FRAMEBUFFER_START {
                            0u8
                        } else {
                            s.memory[a]
                        },
                ),
                display_updated: true,
                ..s
            },
        ),
        Instruction::Return => if s.sp == 0 {
            Err(FaultKind::StackUnderflow)
        } else {
            Ok(Chip8Model { sp: (s.sp - 1) as usize, pc: s.stack[s.sp - 1], ..s })
        },
        Instruction::Jump { addr } => Ok(Chip8Model { pc: addr, ..s }),
        Instruction::Call { addr } => if s.sp >= STACK_DEPTH {
            Err(FaultKind::StackOverflow)
        } else {
            Ok(
                Chip8Model {
                    stack: s.stack.update(s.sp as int, s.pc),
                    sp: (s.sp + 1) as usize,
                    pc: addr,
                    ..s
                },
            )
        },
        Instruction::SkipEqImm { x, nn } => Ok(s.skip_if(v[x as int] == nn)),
        Instruction::SkipNeImm { x, nn } => Ok(s.skip_if(v[x as int] != nn)),
        Instruction::SkipEqReg { x, y } => Ok(s.skip_if(v[x as int] == v[y as int])),
        Instruction::LoadImm { x, nn } => Ok(s.set_reg(x, nn)),
        Instruction::AddImm { x, nn } => Ok(s.set_reg(x, ((v[x as int] + nn) % 256) as u8)),
        Instruction::Move { x, y } => Ok(s.set_reg(x, v[y as int])),
        Instruction::Or { x, y } => Ok(s.set_reg(x, v[x as int] | v[y as int])),
        Instruction::And { x, y } => Ok(s.set_reg(x, v[x as int] & v[y as int])),
        Instruction::Xor { x, y } => Ok(s.set_reg(x, v[x as int] ^ v[y as int])),
        Instruction::AddReg { x, y } => {
            let sum = v[x as int] + v[y as int];
            Ok(s.set_flag_reg(if sum > 255 { 1 } else { 0 }, x, (sum % 256) as u8))
        },
        Instruction::SubReg { x, y } => Ok(
            s.set_flag_reg(
                if v[x as int] >= v[y as int] { 1 } else { 0 },
                x,
                ((v[x as int] - v[y as int]) % 256) as u8,
            ),
        ),
        Instruction::SubRev { x, y } => Ok(
            s.set_flag_reg(
                if v[y as int] >= v[x as int] { 1 } else { 0 },
                x,
                ((v[y as int] - v[x as int]) % 256) as u8,
            ),
        ),
        Instruction::ShiftRight { x } => {
            let v1 = v.update(15, v[x as int] & 1);
            Ok(Chip8Model { v: v1.update(x as int, v1[x as int] >> 1), ..s })
        },
        Instruction::ShiftLeft { x } => {
            let v1 = v.update(15, v[x as int] & 0x80);
            Ok(Chip8Model { v: v1.update(x as int, ((v1[x as int] * 2) % 256) as u8), ..s })
        },
        Instruction::SkipNeReg { x, y } => Ok(s.skip_if(v[x as int] != v[y as int])),
        Instruction::LoadIndex { addr } => Ok(Chip8Model { i: addr, ..s }),
        Instruction::JumpOffset { addr } => Ok(Chip8Model { pc: (v[0] + addr) as u16, ..s }),
        Instruction::Random { x, nn } => Ok(s.set_reg(x, rnd & nn)),
        Instruction::Draw { x, y, n } => draw_spec(s, x, y, n),
        Instruction::SkipKeyPressed { x } => Ok(s.skip_if(s.keypad[(v[x as int] % 16) as int])),
        Instruction::SkipKeyReleased { x } => Ok(s.skip_if(!s.keypad[(v[x as int] % 16) as int])),
        Instruction::LoadDelay { x } => Ok(s.set_reg(x, s.delay_timer)),
        Instruction::WaitKey { x } => match first_pressed(s.keypad, 0) {
            Some(k) => Ok(s.set_reg(x, k)),
            None => Ok(Chip8Model { pc: pc_plus(s.pc, -2), ..s }),
        },
        Instruction::SetDelay { x } => Ok(Chip8Model { delay_timer: v[x as int], ..s }),
        Instruction::SetSound { x } => Ok(Chip8Model { sound_timer: v[x as int], ..s }),
        Instruction::AddIndex { x } => Ok(Chip8Model { i: ((s.i + v[x as int]) % 0x10000) as u16, ..s }),
        Instruction::FontGlyph { x } => if v[x as int] >= 16 {
            Err(FaultKind::InvalidFontGlyph)
        } else {
            Ok(Chip8Model { i: (5 * v[x as int]) as u16, ..s })
        },
        Instruction::StoreBcd { x } => if s.i + 2 >= MEMORY_SIZE {
            Err(FaultKind::MemoryOutOfBounds)
        } else {
            Ok(s.store(s.i as int, bcd_digits(v[x as int])))
        },
        Instruction::StoreRegs { x } => if s.i + x >= MEMORY_SIZE {
            Err(FaultKind::MemoryOutOfBounds)
        } else {
            Ok(s.store(s.i as int, v.subrange(0, x + 1)))
        },
        Instruction::LoadRegs { x } => if s.i + x >= MEMORY_SIZE {
            Err(FaultKind::MemoryOutOfBounds)
        } else {
            Ok(
                Chip8Model {
                    v: Seq::new(
                        16,
                        |k: int|
                            if k <= x {
                                s.memory[s.i + k]
                            } else {
                                v[k]
                            },
                    ),
                    ..s
                },
            )
        },
    }
}

/// The timers after a cycle: each counts down by one while nonzero, and the
/// sound is on for the cycle in which the sound timer was nonzero.
pub open spec fn timers_ticked(s: Chip8Model) -> Chip8Model {
    Chip8Model {
        delay_timer: if s.delay_timer > 0 { (s.delay_timer - 1) as u8 } else { 0 },
        sound_timer: if s.sound_timer > 0 { (s.sound_timer - 1) as u8 } else { 0 },
        sound_active: s.sound_timer > 0,
        ..s
    }
}

/// One full cycle with random byte `rnd`: reset the display flag, fetch,
/// decode, execute, then tick the timers. A fault names the address the
/// instruction was fetched from.
pub open spec fn step_spec(s: Chip8Model, rnd: u8) -> Result<Chip8Model, Fault> {
    let s0 = Chip8Model { display_updated: false, ..s };
    match fetched(s0) {
        None => Err(Fault { kind: FaultKind::ProgramCounterOutOfBounds, pc: s.pc, instruction: None }),
        Some(w) => match decoded(w) {
            None => Err(Fault { kind: FaultKind::UnknownOpcode, pc: s.pc, instruction: Some(w) }),
            Some(ins) => match execute_spec(Chip8Model { pc: (s.pc + 2) as u16, ..s0 }, ins, rnd) {
                Err(k) => Err(Fault { kind: k, pc: s.pc, instruction: Some(w) }),
                Ok(s1) => Ok(timers_ticked(s1)),
            },
        },
    }
}

/// `r` and `after` are what a cycle from `before` with random byte `rnd` gives;
/// after a fault the state is left unspecified.
pub open spec fn step_outcome(before: Chip8Model, rnd: u8, r: Result<(), Fault>, after: Chip8Model) -> bool {
    match r {
        Ok(_) => step_spec(before, rnd) == Ok::<Chip8Model, Fault>(after),
        Err(f) => step_spec(before, rnd) == Err::<Chip8Model, Fault>(f),
    }
}

/// The state of a machine fresh from `Chip8::new`: the font at address 0,
/// everything else zero, and `pc` at the program start.
pub open spec fn initial_model() -> Chip8Model {
    Chip8Model {
        memory: Seq::new(MEMORY_SIZE as nat, |a: int| if a < 80 { font_glyphs()[a] } else { 0u8 }),
        display_updated: false,
        sound_active: false,
        pc: PROGRAM_START,
        i: 0,
        v: Seq::new(16, |k: int| 0u8),
        delay_timer: 0,
        sound_timer: 0,
        sp: 0,
        stack: Seq::new(STACK_DEPTH as nat, |k: int| 0u16),
        keypad: Seq::new(16, |k: int| false),
    }
}

/// A CHIP-8 machine: memory, registers, call stack, timers and keypad.
pub struct Chip8 {
    memory: [u8; 4096],
    display_updated: bool,
    sound_active: bool,
    pc: u16,
    i: u16,
    v: [u8; 16],
    delay_timer: u8,
    sound_timer: u8,
    sp: usize,
    stack: [u16; 16],
    keypad: [bool; 16],
}

impl View for Chip8 {
    type V = Chip8Model;

    closed spec fn view(&self) -> Chip8Model {
        Chip8Model {
            memory: self.memory@,
            display_updated: self.display_updated,
            sound_active: self.sound_active,
            pc: self.pc,
            i: self.i,
            v: self.v@,
            delay_timer: self.delay_timer,
            sound_timer: self.sound_timer,
            sp: self.sp,
            stack: self.stack@,
            keypad: self.keypad@,
        }
    }
}

impl Chip8 {
    /// The machine's invariant: a stack pointer within the stack.
    pub open spec fn wf(&self) -> bool {
        self@.wf()
    }

    /// A machine with the font loaded at address 0, `pc` at the program start
    /// and everything else zero.
    pub fn new() -> (r: Chip8)
        ensures
            r.wf(),
            r@ == initial_model(),
    {
        let mut r = Chip8 {
            memory: [0u8; 4096],
            display_updated: false,
            sound_active: false,
            pc: PROGRAM_START,
            i: 0,
            v: [0u8; 16],
            delay_timer: 0,
            sound_timer: 0,
            sp: 0,
            stack: [0u16; 16],
            keypad: [false; 16],
        };
        let font = font_table();
        let mut k: usize = 0;
        assert(r.memory@ =~= Seq::new(MEMORY_SIZE as nat, |a: int| if a < 0 { font_glyphs()[a] } else { 0u8 }));
        assert(r@.v =~= initial_model().v);
        assert(r@.stack =~= initial_model().stack);
        assert(r@.keypad =~= initial_model().keypad);
        while k < 80
            invariant
                k <= 80,
                font@ == font_glyphs(),
                r@ == (Chip8Model {
                    memory: Seq::new(
                        MEMORY_SIZE as nat,
                        |a: int| if a < k { font_glyphs()[a] } else { 0u8 },
                    ),
                    ..initial_model()
                }),
            decreases 80 - k,
        {
            r.memory[k] = font[k];
            k += 1;
            assert(r.memory@ =~= Seq::new(
                MEMORY_SIZE as nat,
                |a: int| if a < k { font_glyphs()[a] } else { 0u8 },
            ));
        }
        assert(r@.memory =~= initial_model().memory);
        r
    }

    /// Whether the last cycle wrote to the framebuffer.
    pub fn display_updated(&self) -> (r: bool)
        ensures
            r == self@.display_updated,
    {
        self.display_updated
    }

    /// Whether the sound timer was running during the last cycle.
    pub fn sound_active(&self) -> (r: bool)
        ensures
            r == self@.sound_active,
    {
        self.sound_active
    }

    /// The program counter.
    pub fn pc(&self) -> (r: u16)
        ensures
            r == self@.pc,
    {
        self.pc
    }

    /// The index register `I`.
    pub fn index(&self) -> (r: u16)
        ensures
            r == self@.i,
    {
        self.i
    }

    /// General-purpose register `x % 16`.
    pub fn register(&self, x: u8) -> (r: u8)
        requires
            self.wf(),
        ensures
            r == self@.v[(x % 16) as int],
    {
        self.v[(x % 16) as usize]
    }

    /// The number of return addresses on the call stack.
    pub fn stack_pointer(&self) -> (r: usize)
        ensures
            r == self@.sp,
    {
        self.sp
    }

    /// The delay timer.
    pub fn delay_timer(&self) -> (r: u8)
        ensures
            r == self@.delay_timer,
    {
        self.delay_timer
    }

    /// The sound timer.
    pub fn sound_timer(&self) -> (r: u8)
        ensures
            r == self@.sound_timer,
    {
        self.sound_timer
    }

    /// Writes the big-endian word `val` at `addr` and `addr + 1`.
    pub fn write_cmd(&mut self, addr: u16, val: u16)
        requires
            old(self).wf(),
            addr + 1 < MEMORY_SIZE,
        ensures
            final(self).wf(),
            final(self)@ == (Chip8Model {
                memory: old(self)@.memory.update(addr as int, (val / 256) as u8).update(
                    addr + 1,
                    (val % 256) as u8,
                ),
                ..old(self)@
            }),
    {
        let a = addr as usize;
        self.memory[a] = (val / 256) as u8;
        self.memory[a + 1] = (val % 256) as u8;
    }

    /// The byte at `addr`.
    pub fn read(&self, addr: u16) -> (r: u8)
        requires
            self.wf(),
            addr < MEMORY_SIZE,
        ensures
            r == self@.memory[addr as int],
    {
        self.memory[addr as usize]
    }

    /// Writes `val` at `addr`.
    pub fn write(&mut self, addr: u16, val: u8)
        requires
            old(self).wf(),
            addr < MEMORY_SIZE,
        ensures
            final(self).wf(),
            final(self)@ == (Chip8Model { memory: old(self)@.memory.update(addr as int, val), ..old(self)@ }),
    {
        self.memory[addr as usize] = val;
    }

    /// Sets the state of key `addr % 16`.
    pub fn write_keypad(&mut self, addr: u8, val: bool)
        requires
            old(self).wf(),
        ensures
            final(self).wf(),
            final(self)@ == (Chip8Model { keypad: old(self)@.keypad.update((addr % 16) as int, val), ..old(self)@ }),
    {
        self.keypad[(addr % 16) as usize] = val;
    }

    /// Whether key `addr % 16` is pressed.
    fn read_keypad(&self, addr: u8) -> (r: bool)
        requires
            self.wf(),
        ensures
            r == self@.keypad[(addr % 16) as int],
    {
        self.keypad[(addr % 16) as usize]
    }

    /// Reads the instruction word at `pc` and moves `pc` past it.
    fn fetch(&mut self) -> (r: Option<u16>)
        requires
            old(self).wf(),
        ensures
            final(self).wf(),
            r == fetched(old(self)@),
            r is Some ==> final(self)@ == (Chip8Model { pc: (old(self)@.pc + 2) as u16, ..old(self)@ }),
    {
        if self.pc as usize + 1 >= MEMORY_SIZE {
            return None;
        }
        let hi = self.memory[self.pc as usize];
        let lo = self.memory[self.pc as usize + 1];
        self.pc = self.pc + 2;
        Some(hi as u16 * 256 + lo as u16)
    }

    /// `DXYN`: XOR-draws sprite rows `0..=n` read from `I` at `(VX % 64, VY % 32)`,
    /// clipped at the screen edges, with `VF` set when a set pixel was turned off.
    fn draw(&mut self, x: u8, y: u8, n: u8) -> (r: Result<(), FaultKind>)
        requires
            old(self).wf(),
            x < 16,
            y < 16,
            n < 16,
        ensures
            final(self).wf(),
            match r {
                Ok(_) => draw_spec(old(self)@, x, y, n) == Ok::<Chip8Model, FaultKind>(final(self)@),
                Err(k) => draw_spec(old(self)@, x, y, n) == Err::<Chip8Model, FaultKind>(k),
            },
    {
        let px: u8 = self.v[x as usize] % 64;
        let py: u8 = self.v[y as usize] % 32;
        let last: u8 = if py + n < 32 { n } else { 31 - py };
        if self.i as usize + last as usize >= MEMORY_SIZE {
            return Err(FaultKind::MemoryOutOfBounds);
        }
        self.display_updated = true;
        let ghost pre = self@;
        let mut hit = false;
        let mut row: u8 = 0;
        while row <= n && py + row < 32
            invariant
                pre.wf(),
                n < 16,
                py < 32,
                px < 64,
                last == last_row(py as int, n as int),
                self.i + last < MEMORY_SIZE,
                row <= n + 1,
                self@ == (Chip8Model { memory: self.memory@, ..pre }),
                draw_rows(self.memory@, self.i as int, px as int, py as int, n as int, row as int, hit)
                    == draw_rows(pre.memory, pre.i as int, px as int, py as int, n as int, 0, false),
            decreases n + 1 - row,
        {
            let sprite = self.memory[self.i as usize + row as usize];
            if sprite != 0 {
                let out_y = py + row;
                let col = px / 8;
                let sh = px % 8;
                let a: usize = FRAMEBUFFER_START + out_y as usize * 8 + col as usize;
                if sh != 0 && col + 1 < 8 {
                    let bits = sprite << (8 - sh);
                    let cur = self.memory[a + 1];
                    if cur & bits != 0 {
                        hit = true;
                    }
                    self.memory[a + 1] = cur ^ bits;
                }
                let bits = sprite >> sh;
                let cur = self.memory[a];
                if cur & bits != 0 {
                    hit = true;
                }
                self.memory[a] = cur ^ bits;
            }
            row += 1;
        }
        self.v[15] = if hit { 1 } else { 0 };
        Ok(())
    }

    /// Writes `bytes` from address `I` on; marks the display changed when a
    /// written address lies in the framebuffer.
    fn store_at_index(&mut self, bytes: &[u8])
        requires
            old(self).wf(),
            1 <= bytes@.len() <= 16,
            old(self)@.i + bytes@.len() <= MEMORY_SIZE,
        ensures
            final(self).wf(),
            final(self)@ == old(self)@.store(old(self)@.i as int, bytes@),
    {
        let ghost pre = self@;
        let at = self.i as usize;
        let mut k: usize = 0;
        while k < bytes.len()
            invariant
                pre.wf(),
                at == pre.i,
                at + bytes@.len() <= MEMORY_SIZE,
                k <= bytes@.len(),
                self@ == (Chip8Model { memory: self.memory@, ..pre }),
                self.memory@ =~= overwritten(pre.memory, at as int, bytes@.take(k as int)),
            decreases bytes@.len() - k,
        {
            self.memory[at + k] = bytes[k];
            k += 1;
            assert(self.memory@ =~= overwritten(pre.memory, at as int, bytes@.take(k as int)));
        }
        assert(bytes@.take(k as int) =~= bytes@);
        if at + bytes.len() > FRAMEBUFFER_START {
            self.display_updated = true;
        }
    }

    /// Applies one decoded instruction to a machine whose `pc` already points
    /// past it; `random` is the byte that `CXNN` masks.
    pub fn execute(&mut self, ins: Instruction, random: u8) -> (r: Result<(), FaultKind>)
        requires
            old(self).wf(),
            ins.wf(),
        ensures
            final(self).wf(),
            match r {
                Ok(_) => execute_spec(old(self)@, ins, random) == Ok::<Chip8Model, FaultKind>(final(self)@),
                Err(k) => execute_spec(old(self)@, ins, random) == Err::<Chip8Model, FaultKind>(k),
            },
    {
        match ins {
            Instruction::ClearScreen | Instruction::Return | Instruction::Jump { .. }
            | Instruction::Call { .. } | Instruction::JumpOffset { .. }
            | Instruction::SkipEqImm { .. } | Instruction::SkipNeImm { .. }
            | Instruction::SkipEqReg { .. } | Instruction::SkipNeReg { .. }
            | Instruction::SkipKeyPressed { .. } | Instruction::SkipKeyReleased { .. } => {
                self.execute_control(ins, random)
            },
            Instruction::LoadImm { .. } | Instruction::AddImm { .. } | Instruction::Move { .. }
            | Instruction::Or { .. } | Instruction::And { .. } | Instruction::Xor { .. }
            | Instruction::AddReg { .. } | Instruction::SubReg { .. }
            | Instruction::SubRev { .. } | Instruction::ShiftRight { .. }
            | Instruction::ShiftLeft { .. } | Instruction::Random { .. } => {
                self.execute_alu(ins, random)
            },
            Instruction::LoadIndex { .. } | Instruction::Draw { .. }
            | Instruction::LoadDelay { .. } | Instruction::WaitKey { .. }
            | Instruction::SetDelay { .. } | Instruction::SetSound { .. }
            | Instruction::AddIndex { .. } | Instruction::FontGlyph { .. }
            | Instruction::StoreBcd { .. } | Instruction::StoreRegs { .. }
            | Instruction::LoadRegs { .. } => {
                self.execute_misc(ins, random)
            },
        }
    }

    /// `execute` for control flow: clearing the screen, jumps, calls, returns and skips.
    fn execute_control(&mut self, ins: Instruction, random: u8) -> (r: Result<(), FaultKind>)
        requires
            old(self).wf(),
            ins.wf(),
            ({
                ||| ins is ClearScreen
                ||| ins is Return
                ||| ins is Jump
                ||| ins is Call
                ||| ins is JumpOffset
                ||| ins is SkipEqImm
                ||| ins is SkipNeImm
                ||| ins is SkipEqReg
                ||| ins is SkipNeReg
                ||| ins is SkipKeyPressed
                ||| ins is SkipKeyReleased
            }),
        ensures
            final(self).wf(),
            match r {
                Ok(_) => execute_spec(old(self)@, ins, random) == Ok::<Chip8Model, FaultKind>(final(self)@),
                Err(k) => execute_spec(old(self)@, ins, random) == Err::<Chip8Model, FaultKind>(k),
            },
    {
        match ins {
            Instruction::ClearScreen => {
                let ghost pre = self@;
                let mut a: usize = FRAMEBUFFER_START;
                while a < MEMORY_SIZE
                    invariant
                        pre.wf(),
                        FRAMEBUFFER_START <= a <= MEMORY_SIZE,
                        self@ == (Chip8Model { memory: self.memory@, ..pre }),
                        self.memory@ =~= Seq::new(
                            MEMORY_SIZE as nat,
                            |b: int| if FRAMEBUFFER_START <= b < a { 0u8 } else { pre.memory[b] },
                        ),
                    decreases MEMORY_SIZE - a,
                {
                    self.memory[a] = 0;
                    a += 1;
                    assert(self.memory@ =~= Seq::new(
                        MEMORY_SIZE as nat,
                        |b: int| if FRAMEBUFFER_START <= b < a { 0u8 } else { pre.memory[b] },
                    ));
                }
                self.display_updated = true;
                assert(self@.memory =~= Seq::new(
                    pre.memory.len(),
                    |b: int| if b >= FRAMEBUFFER_START { 0u8 } else { pre.memory[b] },
                ));
            },
            Instruction::Return => {
                if self.sp == 0 {
                    return Err(FaultKind::StackUnderflow);
                }
                self.sp -= 1;
                self.pc = self.stack[self.sp];
            },
            Instruction::Jump { addr } => {
                self.pc = addr;
            },
            Instruction::Call { addr } => {
                if self.sp >= STACK_DEPTH {
                    return Err(FaultKind::StackOverflow);
                }
                self.stack[self.sp] = self.pc;
                self.sp += 1;
                self.pc = addr;
            },
            Instruction::SkipEqImm { x, nn } => {
                if self.v[x as usize] == nn {
                    self.pc = self.pc.wrapping_add(2);
                }
            },
            Instruction::SkipNeImm { x, nn } => {
                if self.v[x as usize] != nn {
                    self.pc = self.pc.wrapping_add(2);
                }
            },
            Instruction::SkipEqReg { x, y } => {
                if self.v[x as usize] == self.v[y as usize] {
                    self.pc = self.pc.wrapping_add(2);
                }
            },
            Instruction::SkipNeReg { x, y } => {
                if self.v[x as usize] != self.v[y as usize] {
                    self.pc = self.pc.wrapping_add(2);
                }
            },
            Instruction::JumpOffset { addr } => {
                self.pc = self.v[0] as u16 + addr;
            },
            Instruction::SkipKeyPressed { x } => {
                if self.read_keypad(self.v[x as usize]) {
                    self.pc = self.pc.wrapping_add(2);
                }
            },
            Instruction::SkipKeyReleased { x } => {
                if !self.read_keypad(self.v[x as usize]) {
                    self.pc = self.pc.wrapping_add(2);
                }
            },
            _ => {},
        }
        Ok(())
    }

    /// `execute` for register arithmetic and logic, and the random byte.
    fn execute_alu(&mut self, ins: Instruction, random: u8) -> (r: Result<(), FaultKind>)
        requires
            old(self).wf(),
            ins.wf(),
            ({
                ||| ins is LoadImm
                ||| ins is AddImm
                ||| ins is Move
                ||| ins is Or
                ||| ins is And
                ||| ins is Xor
                ||| ins is AddReg
                ||| ins is SubReg
                ||| ins is SubRev
                ||| ins is ShiftRight
                ||| ins is ShiftLeft
                ||| ins is Random
            }),
        ensures
            final(self).wf(),
            match r {
                Ok(_) => execute_spec(old(self)@, ins, random) == Ok::<Chip8Model, FaultKind>(final(self)@),
                Err(k) => execute_spec(old(self)@, ins, random) == Err::<Chip8Model, FaultKind>(k),
            },
    {
        match ins {
            Instruction::LoadImm { x, nn } => {
                self.v[x as usize] = nn;
            },
            Instruction::AddImm { x, nn } => {
                self.v[x as usize] = self.v[x as usize].wrapping_add(nn);
            },
            Instruction::Move { x, y } => {
                self.v[x as usize] = self.v[y as usize];
            },
            Instruction::Or { x, y } => {
                self.v[x as usize] = self.v[x as usize] | self.v[y as usize];
            },
            Instruction::And { x, y } => {
                self.v[x as usize] = self.v[x as usize] & self.v[y as usize];
            },
            Instruction::Xor { x, y } => {
                self.v[x as usize] = self.v[x as usize] ^ self.v[y as usize];
            },
            Instruction::AddReg { x, y } => {
                let sum: u16 = self.v[x as usize] as u16 + self.v[y as usize] as u16;
                self.v[15] = if sum > 255 { 1 } else { 0 };
                self.v[x as usize] = (sum % 256) as u8;
            },
            Instruction::SubReg { x, y } => {
                let (a, b) = (self.v[x as usize], self.v[y as usize]);
                self.v[15] = if a >= b { 1 } else { 0 };
                self.v[x as usize] = a.wrapping_sub(b);
            },
            Instruction::SubRev { x, y } => {
                let (a, b) = (self.v[x as usize], self.v[y as usize]);
                self.v[15] = if b >= a { 1 } else { 0 };
                self.v[x as usize] = b.wrapping_sub(a);
            },
            Instruction::ShiftRight { x } => {
                self.v[15] = self.v[x as usize] & 1;
                self.v[x as usize] = self.v[x as usize] >> 1;
            },
            Instruction::ShiftLeft { x } => {
                self.v[15] = self.v[x as usize] & 0x80;
                self.v[x as usize] = ((self.v[x as usize] as u16 * 2) % 256) as u8;
            },
            Instruction::Random { x, nn } => {
                self.v[x as usize] = random & nn;
            },
            _ => {},
        }
        Ok(())
    }

    /// `execute` for the index register, drawing, timers, key waits and memory transfers.
    fn execute_misc(&mut self, ins: Instruction, random: u8) -> (r: Result<(), FaultKind>)
        requires
            old(self).wf(),
            ins.wf(),
            ({
                ||| ins is LoadIndex
                ||| ins is Draw
                ||| ins is LoadDelay
                ||| ins is WaitKey
                ||| ins is SetDelay
                ||| ins is SetSound
                ||| ins is AddIndex
                ||| ins is FontGlyph
                ||| ins is StoreBcd
                ||| ins is StoreRegs
                ||| ins is LoadRegs
            }),
        ensures
            final(self).wf(),
            match r {
                Ok(_) => execute_spec(old(self)@, ins, random) == Ok::<Chip8Model, FaultKind>(final(self)@),
                Err(k) => execute_spec(old(self)@, ins, random) == Err::<Chip8Model, FaultKind>(k),
            },
    {
        match ins {
            Instruction::LoadIndex { addr } => {
                self.i = addr;
            },
            Instruction::Draw { x, y, n } => {
                return self.draw(x, y, n);
            },
            Instruction::LoadDelay { x } => {
                self.v[x as usize] = self.delay_timer;
            },
            Instruction::WaitKey { x } => {
                match self.lowest_pressed_key() {
                    Some(k) => {
                        self.v[x as usize] = k;
                    },
                    None => {
                        self.pc = self.pc.wrapping_sub(2);
                    },
                }
            },
            Instruction::SetDelay { x } => {
                self.delay_timer = self.v[x as usize];
            },
            Instruction::SetSound { x } => {
                self.sound_timer = self.v[x as usize];
            },
            Instruction::AddIndex { x } => {
                self.i = self.i.wrapping_add(self.v[x as usize] as u16);
            },
            Instruction::FontGlyph { x } => {
                if self.v[x as usize] >= 16 {
                    return Err(FaultKind::InvalidFontGlyph);
                }
                self.i = 5 * (self.v[x as usize] as u16);
            },
            Instruction::StoreBcd { x } => {
                if self.i as usize + 2 >= MEMORY_SIZE {
                    return Err(FaultKind::MemoryOutOfBounds);
                }
                let b = self.v[x as usize];
                let digits: [u8; 3] = [b / 100, (b / 10) % 10, b % 10];
                assert(digits@ =~= bcd_digits(b));
                self.store_at_index(digits.as_slice());
            },
            Instruction::StoreRegs { x } => {
                if self.i as usize + x as usize >= MEMORY_SIZE {
                    return Err(FaultKind::MemoryOutOfBounds);
                }
                let regs = self.v;
                self.store_at_index(&regs[0..x as usize + 1]);
            },
            Instruction::LoadRegs { x } => {
                if self.i as usize + x as usize >= MEMORY_SIZE {
                    return Err(FaultKind::MemoryOutOfBounds);
                }
                let ghost pre = self@;
                let at = self.i as usize;
                let mut k: usize = 0;
                while k <= x as usize
                    invariant
                        pre.wf(),
                        x < 16,
                        at == pre.i,
                        at + x < MEMORY_SIZE,
                        k <= x + 1,
                        self@ == (Chip8Model { v: self.v@, ..pre }),
                        self.v@ =~= Seq::new(
                            16,
                            |j: int| if j < k { pre.memory[at + j] } else { pre.v[j] },
                        ),
                    decreases x + 1 - k,
                {
                    self.v[k] = self.memory[at + k];
                    k += 1;
                    assert(self.v@ =~= Seq::new(
                        16,
                        |j: int| if j < k { pre.memory[at + j] } else { pre.v[j] },
                    ));
                }
                assert(self.v@ =~= Seq::new(
                    16,
                    |j: int| if j <= x { pre.memory[pre.i + j] } else { pre.v[j] },
                ));
            },            _ => {},
        }
        Ok(())
    }

    /// One cycle with `random` as the byte that `CXNN` masks: resets the
    /// display flag, fetches, decodes and executes one instruction, then counts
    /// the timers down. On a fault the machine cannot go on.
    pub fn step(&mut self, random: u8) -> (r: Result<(), Fault>)
        requires
            old(self).wf(),
        ensures
            final(self).wf(),
            step_outcome(old(self)@, random, r, final(self)@),
    {
        let start = self.pc;
        self.display_updated = false;
        let word = match self.fetch() {
            Some(w) => w,
            None => {
                return Err(
                    Fault { kind: FaultKind::ProgramCounterOutOfBounds, pc: start, instruction: None },
                );
            },
        };
        let ins = match decode(word) {
            Some(ins) => ins,
            None => {
                return Err(
                    Fault { kind: FaultKind::UnknownOpcode, pc: start, instruction: Some(word) },
                );
            },
        };
        if let Err(kind) = self.execute(ins, random) {
            return Err(Fault { kind, pc: start, instruction: Some(word) });
        }
        if self.delay_timer > 0 {
            self.delay_timer -= 1;
        }
        self.sound_active = self.sound_timer > 0;
        if self.sound_timer > 0 {
            self.sound_timer -= 1;
        }
        Ok(())
    }

    /// One cycle, with a fresh random byte for `CXNN`.
    pub fn cycle(&mut self) -> (r: Result<(), Fault>)
        requires
            old(self).wf(),
        ensures
            final(self).wf(),
            exists|b: u8| step_outcome(old(self)@, b, r, final(self)@),
    {
        let b = random_byte();
        self.step(b)
    }

    /// The framebuffer as text, one line per pixel row.
    pub fn display_to_string(&self) -> (r: String)
        requires
            self.wf(),
        ensures
            r@ == screen_text(self@.framebuffer()),
    {
        let ghost fb = self@.framebuffer();
        let mut out = String::new();
        let mut row: usize = 0;
        while row < 32
            invariant
                self.wf(),
                fb == self@.framebuffer(),
                row <= 32,
                out@ == rows_text(fb, row as int),
            decreases 32 - row,
        {
            let mut byte: usize = 0;
            while byte < 8
                invariant
                    self.wf(),
                    fb == self@.framebuffer(),
                    row < 32,
                    byte <= 8,
                    out@ == rows_text(fb, row as int) + row_text(fb, row as int).take(byte * 8),
                decreases 8 - byte,
            {
                let b = self.memory[FRAMEBUFFER_START + row * 8 + byte];
                let mut k: u8 = 0;
                while k < 8
                    invariant
                        row < 32,
                        byte < 8,
                        k <= 8,
                        b == fb[row * 8 + byte],
                        out@ == rows_text(fb, row as int) + row_text(fb, row as int).take(
                            byte * 8 + k,
                        ),
                    decreases 8 - k,
                {
                    let mask: u8 = 0x80 >> k;
                    let c = if b & mask == 0 { PIXEL_OFF } else { PIXEL_ON };
                    proof {
                        let p = byte * 8 + k;
                        assert(p / 8 == byte && p % 8 == k) by (nonlinear_arith)
                            requires p == byte * 8 + k, k < 8;
                        assert(row_text(fb, row as int)[p] == pixel_char(pixel_on(b, k as int)));
                    }
                    out.push(c);
                    k += 1;
                    assert(out@ =~= rows_text(fb, row as int) + row_text(fb, row as int).take(
                        byte * 8 + k,
                    ));
                }
                byte += 1;
            }
            out.push('\n');
            out.push('\r');
            assert(out@ =~= rows_text(fb, row + 1));
            row += 1;
        }
        out
    }

    /// The lowest index of a pressed key, if any key is pressed.
    fn lowest_pressed_key(&self) -> (r: Option<u8>)
        requires
            self.wf(),
        ensures
            r == first_pressed(self@.keypad, 0),
    {
        let mut k: usize = 16;
        let mut found: Option<u8> = None;
        while k > 0
            invariant
                self.wf(),
                k <= 16,
                found == first_pressed(self@.keypad, k as int),
            decreases k,
        {
            k -= 1;
            if self.keypad[k] {
                found = Some(k as u8);
            }
        }
        found
    }
}

} // verus!
