use vstd::prelude::*;
use crate::error::Chip8Error;
use crate::semantics::{key_down_spec, key_up_spec, tick_spec};

verus! {

/// Bytes of addressable memory.
pub const MEMORY_SIZE: usize = 4096;
/// Number of general registers; the last one is the flag register.
pub const NUM_REGISTERS: usize = 16;
/// Depth of the return stack.
pub const STACK_DEPTH: usize = 16;
/// Framebuffer width in pixels.
pub const SCREEN_WIDTH: usize = 64;
/// Framebuffer height in pixels.
pub const SCREEN_HEIGHT: usize = 32;
/// Number of framebuffer cells.
pub const SCREEN_CELLS: usize = 2048;
/// Number of keys on the keypad.
pub const NUM_KEYS: usize = 16;
/// Where programs are loaded and execution starts.
pub const PROGRAM_START: u16 = 0x200;
/// Where the glyph table is loaded.
pub const FONT_BASE: u16 = 0x000;
/// Bytes per glyph.
pub const GLYPH_BYTES: u16 = 5;
/// Size of the glyph table.
pub const FONT_SIZE: usize = 80;
/// Index of the flag register.
pub const FLAG: u8 = 0xF;

/// The sixteen 5-byte glyphs for the hexadecimal digits, in order.
pub open spec fn font_spec() -> Seq<u8> {
    seq![
        0xF0u8, 0x90, 0x90, 0x90, 0xF0, 0x20, 0x60, 0x20, 0x20, 0x70,
        0xF0, 0x10, 0xF0, 0x80, 0xF0, 0xF0, 0x10, 0xF0, 0x10, 0xF0,
        0x90, 0x90, 0xF0, 0x10, 0x10, 0xF0, 0x80, 0xF0, 0x10, 0xF0,
        0xF0, 0x80, 0xF0, 0x90, 0xF0, 0xF0, 0x10, 0x20, 0x40, 0x40,
        0xF0, 0x90, 0xF0, 0x90, 0xF0, 0xF0, 0x90, 0xF0, 0x10, 0xF0,
        0xF0, 0x90, 0xF0, 0x90, 0x90, 0xE0, 0x90, 0xE0, 0x90, 0xE0,
        0xF0, 0x80, 0x80, 0x80, 0xF0, 0xE0, 0x90, 0x90, 0x90, 0xE0,
        0xF0, 0x80, 0xF0, 0x80, 0xF0, 0xF0, 0x80, 0xF0, 0x80, 0x80,
    ]
}

/// Memory with `program` copied in from the program start on.
pub open spec fn with_program(memory: Seq<u8>, program: Seq<u8>) -> Seq<u8> {
    Seq::new(
        memory.len(),
        |a: int|
            if PROGRAM_START <= a < PROGRAM_START + program.len() {
                program[a - PROGRAM_START]
            } else {
                memory[a]
            },
    )
}

/// The mathematical state of a machine.
pub struct Chip8View {
    pub memory: Seq<u8>,
    pub v: Seq<u8>,
    pub index: u16,
    pub pc: u16,
    /// Return addresses, the most recent last.
    pub stack: Seq<u16>,
    pub delay: u8,
    pub sound: u8,
    /// Row-major pixels, `true` for lit.
    pub fb: Seq<bool>,
    pub dirty: bool,
    pub keys: Seq<bool>,
    /// The register that a pending key wait will fill, if one is pending.
    pub waiting: Option<u8>,
    /// The first key pressed since the wait began.
    pub pressed: Option<u8>,
}

impl Chip8View {
    /// Sizes and ranges that every reachable state keeps.
    pub open spec fn wf(self) -> bool {
        &&& self.memory.len() == MEMORY_SIZE
        &&& self.v.len() == NUM_REGISTERS
        &&& self.stack.len() <= STACK_DEPTH
        &&& forall|i: int| 0 <= i < self.stack.len() ==> #[trigger] self.stack[i] < MEMORY_SIZE
        &&& self.pc < MEMORY_SIZE
        &&& self.index < MEMORY_SIZE
        &&& self.fb.len() == SCREEN_CELLS
        &&& self.keys.len() == NUM_KEYS
        &&& (self.waiting matches Some(t) ==> t < NUM_REGISTERS)
        &&& (self.pressed matches Some(k) ==> k < NUM_KEYS && self.waiting is Some)
    }

    /// The register file with `V[x]` replaced.
    pub open spec fn set_reg(self, x: u8, val: u8) -> Chip8View {
        Chip8View { v: self.v.update(x as int, val), ..self }
    }

    /// The register `V[x]`.
    pub open spec fn reg(self, x: u8) -> u8 {
        self.v[x as int]
    }

    /// Whether the key `k` is down; codes beyond the keypad are never down.
    pub open spec fn key_is_down(self, k: u8) -> bool {
        k < NUM_KEYS && self.keys[k as int]
    }
}

/// A CHIP-8 machine: memory, registers, stack, timers, framebuffer and
/// keypad latch.
pub struct Chip8 {
    pub(crate) memory: Vec<u8>,
    pub(crate) v: Vec<u8>,
    pub(crate) index: u16,
    pub(crate) pc: u16,
    pub(crate) stack: Vec<u16>,
    pub(crate) dt: u8,
    pub(crate) st: u8,
    pub(crate) fb: Vec<bool>,
    pub(crate) redraw: bool,
    pub(crate) keys: Vec<bool>,
    pub(crate) waiting: Option<u8>,
    pub(crate) pressed: Option<u8>,
}

impl View for Chip8 {
    type V = Chip8View;

    open(crate) spec fn view(&self) -> Chip8View {
        Chip8View {
            memory: self.memory@,
            v: self.v@,
            index: self.index,
            pc: self.pc,
            stack: self.stack@,
            delay: self.dt,
            sound: self.st,
            fb: self.fb@,
            dirty: self.redraw,
            keys: self.keys@,
            waiting: self.waiting,
            pressed: self.pressed,
        }
    }
}

impl Chip8 {
    /// Well-formedness of the machine.
    pub open spec fn wf(&self) -> bool {
        self@.wf()
    }

    /// A machine with zeroed memory, registers, timers and screen, no keys
    /// down, an empty stack, and `PC` at the program start.
    pub fn new() -> (r: Chip8)
        ensures
            r.wf(),
            r@.memory == Seq::new(MEMORY_SIZE as nat, |i: int| 0u8),
            r@.v == Seq::new(NUM_REGISTERS as nat, |i: int| 0u8),
            r@.index == 0,
            r@.pc == PROGRAM_START,
            r@.stack == Seq::<u16>::empty(),
            r@.delay == 0,
            r@.sound == 0,
            r@.fb == Seq::new(SCREEN_CELLS as nat, |i: int| false),
            !r@.dirty,
            r@.keys == Seq::new(NUM_KEYS as nat, |i: int| false),
            r@.waiting is None,
            r@.pressed is None,
    {
        let r = Chip8 {
            memory: vec![0u8; MEMORY_SIZE],
            v: vec![0u8; NUM_REGISTERS],
            index: 0,
            pc: PROGRAM_START,
            stack: Vec::new(),
            dt: 0,
            st: 0,
            fb: vec![false; SCREEN_CELLS],
            redraw: false,
            keys: vec![false; NUM_KEYS],
            waiting: None,
            pressed: None,
        };
        assert(r@.memory =~= Seq::new(MEMORY_SIZE as nat, |i: int| 0u8));
        assert(r@.v =~= Seq::new(NUM_REGISTERS as nat, |i: int| 0u8));
        assert(r@.fb =~= Seq::new(SCREEN_CELLS as nat, |i: int| false));
        assert(r@.keys =~= Seq::new(NUM_KEYS as nat, |i: int| false));
        r
    }

    /// Writes the glyph table at the start of memory; nothing else changes.
    pub fn load_font_set(&mut self)
        requires
            old(self).wf(),
        ensures
            final(self).wf(),
            final(self)@ == (Chip8View {
                memory: font_spec() + old(self)@.memory.skip(FONT_SIZE as int),
                ..old(self)@
            }),
    {
        let font: [u8; 80] = [
            0xF0, 0x90, 0x90, 0x90, 0xF0, 0x20, 0x60, 0x20, 0x20, 0x70,
            0xF0, 0x10, 0xF0, 0x80, 0xF0, 0xF0, 0x10, 0xF0, 0x10, 0xF0,
            0x90, 0x90, 0xF0, 0x10, 0x10, 0xF0, 0x80, 0xF0, 0x10, 0xF0,
            0xF0, 0x80, 0xF0, 0x90, 0xF0, 0xF0, 0x10, 0x20, 0x40, 0x40,
            0xF0, 0x90, 0xF0, 0x90, 0xF0, 0xF0, 0x90, 0xF0, 0x10, 0xF0,
            0xF0, 0x90, 0xF0, 0x90, 0x90, 0xE0, 0x90, 0xE0, 0x90, 0xE0,
            0xF0, 0x80, 0x80, 0x80, 0xF0, 0xE0, 0x90, 0x90, 0x90, 0xE0,
            0xF0, 0x80, 0xF0, 0x80, 0xF0, 0xF0, 0x80, 0xF0, 0x80, 0x80,
        ];
        assert(font@ == font_spec());
        let mut i: usize = 0;
        while i < FONT_SIZE
            invariant
                i <= FONT_SIZE,
                font@ == font_spec(),
                self.wf(),
                self@ == (Chip8View { memory: self@.memory, ..old(self)@ }),
                forall|a: int| 0 <= a < i ==> #[trigger] self@.memory[a] == font_spec()[a],
                forall|a: int| i <= a < MEMORY_SIZE ==> #[trigger] self@.memory[a] == old(self)@.memory[a],
            decreases FONT_SIZE - i,
        {
            self.memory[i] = font[i];
            i += 1;
        }
        assert(self@.memory =~= font_spec() + old(self)@.memory.skip(FONT_SIZE as int));
    }

    /// Copies `program` into memory from the program start on; fails with
    /// `LoadError`, changing nothing, when it does not fit.
    pub fn load_program(&mut self, program: &[u8]) -> (r: Result<(), Chip8Error>)
        requires
            old(self).wf(),
        ensures
            final(self).wf(),
            PROGRAM_START + program@.len() > MEMORY_SIZE ==> r == Err::<(), Chip8Error>(
                Chip8Error::LoadError,
            ) && final(self)@ == old(self)@,
            PROGRAM_START + program@.len() <= MEMORY_SIZE ==> r is Ok && final(self)@ == (Chip8View {
                memory: with_program(old(self)@.memory, program@),
                ..old(self)@
            }),
    {
        let len = program.len();
        if len > MEMORY_SIZE - PROGRAM_START as usize {
            return Err(Chip8Error::LoadError);
        }
        let base = PROGRAM_START as usize;
        let mut i: usize = 0;
        while i < len
            invariant
                old(self).wf(),
                len == program@.len(),
                base + len <= MEMORY_SIZE,
                base == PROGRAM_START,
                i <= len,
                self@ == (Chip8View { memory: self@.memory, ..old(self)@ }),
                self@.memory.len() == MEMORY_SIZE,
                forall|a: int|
                    0 <= a < MEMORY_SIZE ==> #[trigger] self@.memory[a] == if base <= a < base + i {
                        program@[a - base]
                    } else {
                        old(self)@.memory[a]
                    },
            decreases len - i,
        {
            self.memory[base + i] = program[i];
            i += 1;
        }
        assert(self@.memory =~= with_program(old(self)@.memory, program@));
        Ok(())
    }

    /// Counts each timer down by one, stopping at zero.
    pub fn tick_timers(&mut self)
        requires
            old(self).wf(),
        ensures
            final(self).wf(),
            final(self)@ == tick_spec(old(self)@),
    {
        if self.dt > 0 {
            self.dt = self.dt - 1;
        }
        if self.st > 0 {
            self.st = self.st - 1;
        }
    }

    /// Whether the sound timer is running.
    pub fn is_sound_active(&self) -> (r: bool)
        ensures
            r == (self@.sound > 0),
    {
        self.st > 0
    }

    /// Marks key `code` as down; a pending key wait records it if no key
    /// has been recorded yet.
    pub fn set_key_down(&mut self, code: u8)
        requires
            old(self).wf(),
            code < NUM_KEYS,
        ensures
            final(self).wf(),
            final(self)@ == key_down_spec(old(self)@, code),
    {
        self.keys[code as usize] = true;
        if self.waiting.is_some() && self.pressed.is_none() {
            self.pressed = Some(code);
        }
    }

    /// Marks key `code` as up.
    pub fn set_key_up(&mut self, code: u8)
        requires
            old(self).wf(),
            code < NUM_KEYS,
        ensures
            final(self).wf(),
            final(self)@ == key_up_spec(old(self)@, code),
    {
        self.keys[code as usize] = false;
    }

    /// Whether key `code` is down.
    pub fn is_key_down(&self, code: u8) -> (r: bool)
        requires
            self.wf(),
        ensures
            r == self@.key_is_down(code),
    {
        (code as usize) < NUM_KEYS && self.keys[code as usize]
    }

    /// The register `V[x]`.
    pub fn register(&self, x: u8) -> (r: u8)
        requires
            self.wf(),
            x < NUM_REGISTERS,
        ensures
            r == self@.reg(x),
    {
        self.v[x as usize]
    }

    /// Sets the register `V[x]`.
    pub fn set_register(&mut self, x: u8, val: u8)
        requires
            old(self).wf(),
            x < NUM_REGISTERS,
        ensures
            final(self).wf(),
            final(self)@ == old(self)@.set_reg(x, val),
    {
        self.v[x as usize] = val;
    }

    /// The index register `I`.
    pub fn index(&self) -> (r: u16)
        ensures
            r == self@.index,
    {
        self.index
    }

    /// Sets `I`; an address outside memory is refused with `MemoryFault`.
    pub fn set_index(&mut self, addr: u16) -> (r: Result<(), Chip8Error>)
        requires
            old(self).wf(),
        ensures
            final(self).wf(),
            addr < MEMORY_SIZE ==> r is Ok && final(self)@ == (Chip8View { index: addr, ..old(self)@ }),
            addr >= MEMORY_SIZE ==> r == Err::<(), Chip8Error>(
                Chip8Error::MemoryFault { addr: addr as usize },
            ) && final(self)@ == old(self)@,
    {
        if addr as usize >= MEMORY_SIZE {
            return Err(Chip8Error::MemoryFault { addr: addr as usize });
        }
        self.index = addr;
        Ok(())
    }

    /// The program counter.
    pub fn pc(&self) -> (r: u16)
        ensures
            r == self@.pc,
    {
        self.pc
    }

    /// Sets `PC`; an address outside memory is refused with `MemoryFault`.
    pub fn set_pc(&mut self, addr: u16) -> (r: Result<(), Chip8Error>)
        requires
            old(self).wf(),
        ensures
            final(self).wf(),
            addr < MEMORY_SIZE ==> r is Ok && final(self)@ == (Chip8View { pc: addr, ..old(self)@ }),
            addr >= MEMORY_SIZE ==> r == Err::<(), Chip8Error>(
                Chip8Error::MemoryFault { addr: addr as usize },
            ) && final(self)@ == old(self)@,
    {
        if addr as usize >= MEMORY_SIZE {
            return Err(Chip8Error::MemoryFault { addr: addr as usize });
        }
        self.pc = addr;
        Ok(())
    }

    /// The byte at `addr`, or `MemoryFault` outside memory.
    pub fn read_byte(&self, addr: usize) -> (r: Result<u8, Chip8Error>)
        requires
            self.wf(),
        ensures
            addr < MEMORY_SIZE ==> r == Ok::<u8, Chip8Error>(self@.memory[addr as int]),
            addr >= MEMORY_SIZE ==> r == Err::<u8, Chip8Error>(Chip8Error::MemoryFault { addr }),
    {
        if addr >= MEMORY_SIZE {
            return Err(Chip8Error::MemoryFault { addr });
        }
        Ok(self.memory[addr])
    }

    /// Writes `value` at `addr`, or fails with `MemoryFault` outside memory,
    /// changing nothing.
    pub fn write_byte(&mut self, addr: usize, value: u8) -> (r: Result<(), Chip8Error>)
        requires
            old(self).wf(),
        ensures
            final(self).wf(),
            addr < MEMORY_SIZE ==> r is Ok && final(self)@ == (Chip8View {
                memory: old(self)@.memory.update(addr as int, value),
                ..old(self)@
            }),
            addr >= MEMORY_SIZE ==> r == Err::<(), Chip8Error>(Chip8Error::MemoryFault { addr })
                && final(self)@ == old(self)@,
    {
        if addr >= MEMORY_SIZE {
            return Err(Chip8Error::MemoryFault { addr });
        }
        self.memory[addr] = value;
        Ok(())
    }

    /// Number of return addresses on the stack.
    pub fn stack_depth(&self) -> (r: usize)
        ensures
            r == self@.stack.len(),
    {
        self.stack.len()
    }

    /// The delay timer.
    pub fn delay_timer(&self) -> (r: u8)
        ensures
            r == self@.delay,
    {
        self.dt
    }

    /// The sound timer.
    pub fn sound_timer(&self) -> (r: u8)
        ensures
            r == self@.sound,
    {
        self.st
    }

    /// The framebuffer, row-major, 64 cells per row, `true` for lit.
    pub fn framebuffer(&self) -> (r: &Vec<bool>)
        ensures
            r@ == self@.fb,
    {
        &self.fb
    }

    /// Whether the framebuffer changed since the flag was last cleared.
    pub fn is_dirty(&self) -> (r: bool)
        ensures
            r == self@.dirty,
    {
        self.redraw
    }

    /// Clears the dirty flag once a frame has been rendered.
    pub fn clear_dirty(&mut self)
        requires
            old(self).wf(),
        ensures
            final(self).wf(),
            final(self)@ == (Chip8View { dirty: false, ..old(self)@ }),
    {
        self.redraw = false;
    }

    /// The register that a pending key wait will fill, if one is pending.
    pub fn waiting_register(&self) -> (r: Option<u8>)
        ensures
            r == self@.waiting,
    {
        self.waiting
    }
}

} // verus!
