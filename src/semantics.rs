use vstd::prelude::*;
use crate::error::Chip8Error;
use crate::instruction::{decode_spec, Instruction};
use crate::machine::{
    Chip8View, FLAG, FONT_BASE, GLYPH_BYTES, MEMORY_SIZE, NUM_REGISTERS, SCREEN_CELLS, SCREEN_HEIGHT,
    SCREEN_WIDTH, STACK_DEPTH,
};

verus! {

/// The state with `PC` at `target`, or a fault when `target` lies outside
/// memory.
pub open spec fn jump(s: Chip8View, target: int) -> Result<Chip8View, Chip8Error> {
    if 0 <= target < MEMORY_SIZE {
        Ok(Chip8View { pc: target as u16, ..s })
    } else {
        Err(Chip8Error::MemoryFault { addr: target as usize })
    }
}

/// The state with `PC` advanced past the current instruction.
pub open spec fn next(s: Chip8View) -> Result<Chip8View, Chip8Error> {
    jump(s, s.pc + 2)
}

/// The state with `PC` advanced by 4 when `cond` holds and by 2 otherwise.
pub open spec fn skip_if(s: Chip8View, cond: bool) -> Result<Chip8View, Chip8Error> {
    jump(s, s.pc + if cond { 4int } else { 2int })
}

/// `V[F]` is written first, then `V[x]`: with `x == F` the result wins.
pub open spec fn set_with_flag(s: Chip8View, x: u8, val: u8, flag: bool) -> Chip8View {
    s.set_reg(FLAG, if flag { 1u8 } else { 0u8 }).set_reg(x, val)
}

/// Bit `col` of a sprite row, counted from the most significant bit.
pub open spec fn sprite_bit(b: u8, col: int) -> bool {
    (b >> ((7 - col) as u8)) & 1u8 == 1u8
}

/// Column of framebuffer cell `cell`.
pub open spec fn cell_x(cell: int) -> int {
    cell % (SCREEN_WIDTH as int)
}

/// Row of framebuffer cell `cell`.
pub open spec fn cell_y(cell: int) -> int {
    cell / (SCREEN_WIDTH as int)
}

/// Whether drawing an `n`-row sprite from `I` at `(vx, vy)` flips `cell`:
/// sprite column and row are the cell's offsets from the origin, wrapped
/// around each axis.
pub open spec fn sprite_covers(s: Chip8View, vx: u8, vy: u8, n: u8, cell: int) -> bool {
    let col = sprite_col(vx, cell);
    let row = sprite_row(vy, cell);
    row < n && col < 8 && sprite_bit(s.memory[s.index + row], col)
}

/// The framebuffer after the sprite is XORed onto it.
pub open spec fn drawn_fb(s: Chip8View, vx: u8, vy: u8, n: u8) -> Seq<bool> {
    Seq::new(SCREEN_CELLS as nat, |c: int| s.fb[c] != sprite_covers(s, vx, vy, n, c))
}

/// Whether the sprite turns off some lit pixel.
pub open spec fn collides(s: Chip8View, vx: u8, vy: u8, n: u8) -> bool {
    exists|c: int| 0 <= c < SCREEN_CELLS && s.fb[c] && #[trigger] sprite_covers(s, vx, vy, n, c)
}

/// The result of drawing, before `PC` moves.
pub open spec fn draw(s: Chip8View, x: u8, y: u8, n: u8) -> Chip8View {
    let vx = s.reg(x);
    let vy = s.reg(y);
    Chip8View {
        fb: drawn_fb(s, vx, vy, n),
        dirty: true,
        ..s.set_reg(FLAG, if collides(s, vx, vy, n) { 1u8 } else { 0u8 })
    }
}

/// Memory with `V[0..=x]` written from `I` on.
pub open spec fn stored_regs(s: Chip8View, x: u8) -> Seq<u8> {
    Seq::new(
        MEMORY_SIZE as nat,
        |a: int| if s.index <= a <= s.index + x { s.v[a - s.index] } else { s.memory[a] },
    )
}

/// Registers with `V[0..=x]` read from `I` on.
pub open spec fn loaded_regs(s: Chip8View, x: u8) -> Seq<u8> {
    Seq::new(
        NUM_REGISTERS as nat,
        |i: int| if i <= x { s.memory[s.index + i] } else { s.v[i] },
    )
}

/// Memory with the decimal digits of `V[x]` written at `I`, `I + 1`, `I + 2`.
pub open spec fn bcd_memory(s: Chip8View, x: u8) -> Seq<u8> {
    let val = s.reg(x);
    s.memory.update(s.index as int, val / 100).update(s.index + 1, (val / 10) % 10).update(
        s.index + 2,
        val % 10,
    )
}

/// The fault for an access that would run past the end of memory.
pub open spec fn past_end() -> Chip8Error {
    Chip8Error::MemoryFault { addr: MEMORY_SIZE }
}

/// What one instruction does to a state; `rnd` is the random byte that
/// `Rnd` uses. On an error the state is left as it was.
pub open spec fn exec_spec(s: Chip8View, ins: Instruction, rnd: u8) -> Result<Chip8View, Chip8Error> {
    match ins {
        Instruction::Cls => next(
            Chip8View { fb: Seq::new(SCREEN_CELLS as nat, |c: int| false), dirty: true, ..s },
        ),
        Instruction::Ret => if s.stack.len() == 0 {
            Err(Chip8Error::StackUnderflow)
        } else {
            jump(Chip8View { stack: s.stack.drop_last(), ..s }, s.stack.last() + 2)
        },
        Instruction::Jp { addr } => jump(s, addr as int),
        Instruction::Call { addr } => if s.stack.len() >= STACK_DEPTH {
            Err(Chip8Error::StackOverflow)
        } else {
            jump(Chip8View { stack: s.stack.push(s.pc), ..s }, addr as int)
        },
        Instruction::SeByte { x, nn } => skip_if(s, s.reg(x) == nn),
        Instruction::SneByte { x, nn } => skip_if(s, s.reg(x) != nn),
        Instruction::SeReg { x, y } => skip_if(s, s.reg(x) == s.reg(y)),
        Instruction::LdByte { x, nn } => next(s.set_reg(x, nn)),
        Instruction::AddByte { x, nn } => next(s.set_reg(x, ((s.reg(x) + nn) % 256) as u8)),
        Instruction::LdReg { x, y } => next(s.set_reg(x, s.reg(y))),
        Instruction::Or { x, y } => next(s.set_reg(x, s.reg(x) | s.reg(y))),
        Instruction::And { x, y } => next(s.set_reg(x, s.reg(x) & s.reg(y))),
        Instruction::Xor { x, y } => next(s.set_reg(x, s.reg(x) ^ s.reg(y))),
        Instruction::AddReg { x, y } => {
            let sum = s.reg(x) + s.reg(y);
            next(set_with_flag(s, x, (sum % 256) as u8, sum > 255))
        },
        Instruction::Sub { x, y } => next(
            set_with_flag(s, x, ((s.reg(x) - s.reg(y)) % 256) as u8, s.reg(x) >= s.reg(y)),
        ),
        Instruction::Shr { x } => next(
            set_with_flag(s, x, s.reg(x) / 2, s.reg(x) % 2 == 1),
        ),
        Instruction::Subn { x, y } => next(
            set_with_flag(s, x, ((s.reg(y) - s.reg(x)) % 256) as u8, s.reg(y) >= s.reg(x)),
        ),
        Instruction::Shl { x } => next(
            set_with_flag(s, x, ((s.reg(x) * 2) % 256) as u8, s.reg(x) >= 128),
        ),
        Instruction::SneReg { x, y } => skip_if(s, s.reg(x) != s.reg(y)),
        Instruction::LdIndex { addr } => next(Chip8View { index: addr, ..s }),
        Instruction::JpV0 { addr } => jump(s, addr + s.reg(0)),
        Instruction::Rnd { x, nn } => next(s.set_reg(x, rnd & nn)),
        Instruction::Drw { x, y, n } => if s.index + n > MEMORY_SIZE {
            Err(past_end())
        } else {
            next(draw(s, x, y, n))
        },
        Instruction::Skp { x } => skip_if(s, s.key_is_down(s.reg(x))),
        Instruction::Sknp { x } => skip_if(s, !s.key_is_down(s.reg(x))),
        Instruction::LdVxDt { x } => next(s.set_reg(x, s.delay)),
        Instruction::LdKey { x } => Ok(Chip8View { waiting: Some(x), pressed: None, ..s }),
        Instruction::LdDtVx { x } => next(Chip8View { delay: s.reg(x), ..s }),
        Instruction::LdStVx { x } => next(Chip8View { sound: s.reg(x), ..s }),
        Instruction::AddIndex { x } => next(
            Chip8View { index: ((s.index + s.reg(x)) % (MEMORY_SIZE as int)) as u16, ..s },
        ),
        Instruction::LdFont { x } => next(
            Chip8View { index: (FONT_BASE + s.reg(x) * GLYPH_BYTES) as u16, ..s },
        ),
        Instruction::LdBcd { x } => if s.index + 3 > MEMORY_SIZE {
            Err(past_end())
        } else {
            next(Chip8View { memory: bcd_memory(s, x), ..s })
        },
        Instruction::StoreRegs { x } => if s.index + x + 1 > MEMORY_SIZE {
            Err(past_end())
        } else {
            next(Chip8View { memory: stored_regs(s, x), ..s })
        },
        Instruction::LoadRegs { x } => if s.index + x + 1 > MEMORY_SIZE {
            Err(past_end())
        } else {
            next(Chip8View { v: loaded_regs(s, x), ..s })
        },
        Instruction::Unknown { word } => Err(Chip8Error::InvalidOpcode { word }),
    }
}

/// The big-endian word at `PC`.
pub open spec fn fetch_spec(s: Chip8View) -> u16 {
    (s.memory[s.pc as int] * 256 + s.memory[s.pc + 1]) as u16
}

/// What one cycle does: while a key wait is pending nothing happens until a
/// key has been pressed, which is then stored and the wait ends; otherwise
/// the word at `PC` is fetched, decoded and executed.
pub open spec fn cycle_spec(s: Chip8View, rnd: u8) -> Result<Chip8View, Chip8Error> {
    match s.waiting {
        Some(t) => match s.pressed {
            Some(k) => next(Chip8View { waiting: None, pressed: None, ..s.set_reg(t, k) }),
            None => Ok(s),
        },
        None => if s.pc + 1 >= MEMORY_SIZE {
            Err(Chip8Error::MemoryFault { addr: (s.pc + 1) as usize })
        } else {
            exec_spec(s, decode_spec(fetch_spec(s)), rnd)
        },
    }
}

/// Whether a call that returned `r` and left `after` behind did what
/// `expected` says, leaving `before` untouched on an error.
pub open spec fn follows(
    before: Chip8View,
    after: Chip8View,
    r: Result<(), Chip8Error>,
    expected: Result<Chip8View, Chip8Error>,
) -> bool {
    match expected {
        Ok(t) => r is Ok && after == t,
        Err(e) => r == Err::<(), Chip8Error>(e) && after == before,
    }
}

/// A result with its value dropped.
pub open spec fn status<T>(r: Result<T, Chip8Error>) -> Result<(), Chip8Error> {
    match r {
        Ok(_) => Ok(()),
        Err(e) => Err(e),
    }
}

/// One tick of the timers: each counts down by one and stops at zero.
pub open spec fn tick_spec(s: Chip8View) -> Chip8View {
    Chip8View {
        delay: if s.delay > 0 { (s.delay - 1) as u8 } else { 0 },
        sound: if s.sound > 0 { (s.sound - 1) as u8 } else { 0 },
        ..s
    }
}

/// The state after a key goes down: the key is latched, and a pending wait
/// records it if no key has been recorded yet.
pub open spec fn key_down_spec(s: Chip8View, code: u8) -> Chip8View {
    Chip8View {
        keys: s.keys.update(code as int, true),
        pressed: if s.waiting is Some && s.pressed is None { Some(code) } else { s.pressed },
        ..s
    }
}

/// The state after a key goes up.
pub open spec fn key_up_spec(s: Chip8View, code: u8) -> Chip8View {
    Chip8View { keys: s.keys.update(code as int, false), ..s }
}

/// Sprite column of `cell` for a sprite drawn at column `vx`.
pub open spec fn sprite_col(vx: u8, cell: int) -> int {
    (cell_x(cell) - vx) % (SCREEN_WIDTH as int)
}

/// Sprite row of `cell` for a sprite drawn at row `vy`.
pub open spec fn sprite_row(vy: u8, cell: int) -> int {
    (cell_y(cell) - vy) % (SCREEN_HEIGHT as int)
}

/// Whether `cell` is flipped by the sprite and comes before row `r`,
/// column `k` of it.
pub open spec fn flips_upto(s: Chip8View, vx: u8, vy: u8, n: u8, cell: int, r: int, k: int) -> bool {
    &&& sprite_covers(s, vx, vy, n, cell)
    &&& (sprite_row(vy, cell) < r || (sprite_row(vy, cell) == r && sprite_col(vx, cell) < k))
}

/// The framebuffer once the sprite has been drawn up to row `r`, column `k`.
pub open spec fn partial_fb(s: Chip8View, vx: u8, vy: u8, n: u8, r: int, k: int) -> Seq<bool> {
    Seq::new(SCREEN_CELLS as nat, |c: int| s.fb[c] != flips_upto(s, vx, vy, n, c, r, k))
}

/// Whether drawing up to row `r`, column `k` has turned off a lit pixel.
pub open spec fn partial_hit(s: Chip8View, vx: u8, vy: u8, n: u8, r: int, k: int) -> bool {
    exists|c: int| 0 <= c < SCREEN_CELLS && s.fb[c] && #[trigger] flips_upto(s, vx, vy, n, c, r, k)
}

/// Wrapping `v + k` around an axis of length `m` and taking the offset from
/// `v` again gives back `k`.
pub proof fn lemma_wrap_offset(v: int, k: int, m: int)
    requires
        0 <= v,
        0 <= k < m,
    ensures
        (((v + k) % m) - v) % m == k,
{
    let q = (v + k) / m;
    assert((v + k) % m == v + k - m * q) by (nonlinear_arith)
        requires
            0 <= v + k,
            0 < m,
            q == (v + k) / m,
    ;
    assert((k - m * q) % m == k) by (nonlinear_arith)
        requires
            0 <= k < m,
    ;
}

/// Moving `v` on by the offset of `p` from `v` lands on `p`.
pub proof fn lemma_wrap_back(v: int, p: int, m: int)
    requires
        0 <= v,
        0 <= p < m,
    ensures
        (v + (p - v) % m) % m == p,
        0 <= (p - v) % m < m,
{
    let q = (p - v) / m;
    assert((p - v) % m == p - v - m * q && 0 <= (p - v) % m < m) by (nonlinear_arith)
        requires
            0 < m,
            q == (p - v) / m,
    ;
    assert((p - m * q) % m == p) by (nonlinear_arith)
        requires
            0 <= p < m,
    ;
}

/// Cells and their coordinates correspond one to one.
pub proof fn lemma_cell_coords(px: int, py: int)
    requires
        0 <= px < SCREEN_WIDTH,
        0 <= py < SCREEN_HEIGHT,
    ensures
        cell_x(py * 64 + px) == px,
        cell_y(py * 64 + px) == py,
        0 <= py * 64 + px < SCREEN_CELLS,
{
    assert((py * 64 + px) % 64 == px && (py * 64 + px) / 64 == py) by (nonlinear_arith)
        requires
            0 <= px < 64,
            0 <= py < 32,
    ;
}

/// Every cell is named by its coordinates.
pub proof fn lemma_cell_split(c: int)
    requires
        0 <= c < SCREEN_CELLS,
    ensures
        c == cell_y(c) * 64 + cell_x(c),
        0 <= cell_x(c) < SCREEN_WIDTH,
        0 <= cell_y(c) < SCREEN_HEIGHT,
{
    assert(c == (c / 64) * 64 + c % 64 && 0 <= c % 64 < 64 && 0 <= c / 64 < 32) by (nonlinear_arith)
        requires
            0 <= c < 2048,
    ;
}

} // verus!
