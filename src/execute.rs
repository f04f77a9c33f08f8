use vstd::prelude::*;
use crate::error::Chip8Error;
use crate::instruction::{decode, decode_spec, Instruction};
use crate::machine::{
    Chip8, Chip8View, FLAG, FONT_BASE, GLYPH_BYTES, MEMORY_SIZE, NUM_REGISTERS, SCREEN_CELLS,
    SCREEN_HEIGHT, SCREEN_WIDTH, STACK_DEPTH,
};
use crate::semantics::{
    cell_x, cell_y, collides, cycle_spec, drawn_fb, exec_spec, fetch_spec, flips_upto, follows,
    jump, lemma_cell_coords, lemma_cell_split, lemma_wrap_back, lemma_wrap_offset, loaded_regs,
    next, partial_fb, partial_hit, sprite_covers, status, stored_regs,
};

verus! {

/// The program counter value `target`, or a fault when it lies outside
/// memory.
fn pc_at(target: usize) -> (r: Result<u16, Chip8Error>)
    ensures
        target < MEMORY_SIZE ==> r == Ok::<u16, Chip8Error>(target as u16),
        target >= MEMORY_SIZE ==> r == Err::<u16, Chip8Error>(
            Chip8Error::MemoryFault { addr: target },
        ),
{
    if target < MEMORY_SIZE {
        Ok(target as u16)
    } else {
        Err(Chip8Error::MemoryFault { addr: target })
    }
}

/// Relies on rand::random::<u8>: a byte from the thread-local generator. Its
/// value is chance, so nothing is stated of it.
#[verifier::external_body]
fn random_byte() -> (r: u8) {
    rand::random::<u8>()
}

impl Chip8 {
    /// `PC` after a skip instruction whose condition is `cond`.
    fn skip_target(&self, cond: bool) -> (r: Result<u16, Chip8Error>)
        requires
            self.wf(),
        ensures
            match jump(self@, self@.pc + if cond { 4int } else { 2int }) {
                Ok(t) => r == Ok::<u16, Chip8Error>(t.pc),
                Err(e) => r == Err::<u16, Chip8Error>(e),
            },
    {
        pc_at(self.pc as usize + if cond { 4 } else { 2 })
    }

    /// `PC` after an instruction that does not jump.
    fn next_pc(&self) -> (r: Result<u16, Chip8Error>)
        requires
            self.wf(),
        ensures
            match next(self@) {
                Ok(t) => r == Ok::<u16, Chip8Error>(t.pc),
                Err(e) => r == Err::<u16, Chip8Error>(e),
            },
    {
        pc_at(self.pc as usize + 2)
    }

    /// Clears the screen.
    fn cls(&mut self) -> (r: Result<(), Chip8Error>)
        requires
            old(self).wf(),
        ensures
            final(self).wf(),
            follows(old(self)@, final(self)@, r, exec_spec(old(self)@, Instruction::Cls, 0)),
    {
        let pc = match pc_at(self.pc as usize + 2) {
            Ok(p) => p,
            Err(e) => return Err(e),
        };
        self.fb = vec![false; SCREEN_CELLS];
        self.redraw = true;
        self.pc = pc;
        assert(self@.fb =~= Seq::new(SCREEN_CELLS as nat, |c: int| false));
        Ok(())
    }

    /// Returns from a subroutine to the instruction after the call.
    fn ret(&mut self) -> (r: Result<(), Chip8Error>)
        requires
            old(self).wf(),
        ensures
            final(self).wf(),
            follows(old(self)@, final(self)@, r, exec_spec(old(self)@, Instruction::Ret, 0)),
    {
        let len = self.stack.len();
        if len == 0 {
            return Err(Chip8Error::StackUnderflow);
        }
        let pc = match pc_at(self.stack[len - 1] as usize + 2) {
            Ok(p) => p,
            Err(e) => return Err(e),
        };
        self.stack.pop();
        self.pc = pc;
        Ok(())
    }

    /// Jumps to `addr`.
    fn jp_addr(&mut self, addr: u16) -> (r: Result<(), Chip8Error>)
        requires
            old(self).wf(),
        ensures
            final(self).wf(),
            follows(old(self)@, final(self)@, r, exec_spec(old(self)@, Instruction::Jp { addr }, 0)),
    {
        self.pc = match pc_at(addr as usize) {
            Ok(p) => p,
            Err(e) => return Err(e),
        };
        Ok(())
    }

    /// Pushes `PC` and jumps to `addr`.
    fn call_addr(&mut self, addr: u16) -> (r: Result<(), Chip8Error>)
        requires
            old(self).wf(),
        ensures
            final(self).wf(),
            follows(
                old(self)@,
                final(self)@,
                r,
                exec_spec(old(self)@, Instruction::Call { addr }, 0),
            ),
    {
        if self.stack.len() >= STACK_DEPTH {
            return Err(Chip8Error::StackOverflow);
        }
        let pc = match pc_at(addr as usize) {
            Ok(p) => p,
            Err(e) => return Err(e),
        };
        self.stack.push(self.pc);
        self.pc = pc;
        Ok(())
    }

    /// Skips the next instruction if `V[x] == nn`.
    fn se_vx_byte(&mut self, x: u8, nn: u8) -> (r: Result<(), Chip8Error>)
        requires
            old(self).wf(),
            x < 16,
        ensures
            final(self).wf(),
            follows(
                old(self)@,
                final(self)@,
                r,
                exec_spec(old(self)@, Instruction::SeByte { x, nn }, 0),
            ),
    {
        self.pc = match self.skip_target(self.v[x as usize] == nn) {
            Ok(p) => p,
            Err(e) => return Err(e),
        };
        Ok(())
    }

    /// Skips the next instruction if `V[x] != nn`.
    fn sne_vx_byte(&mut self, x: u8, nn: u8) -> (r: Result<(), Chip8Error>)
        requires
            old(self).wf(),
            x < 16,
        ensures
            final(self).wf(),
            follows(
                old(self)@,
                final(self)@,
                r,
                exec_spec(old(self)@, Instruction::SneByte { x, nn }, 0),
            ),
    {
        self.pc = match self.skip_target(self.v[x as usize] != nn) {
            Ok(p) => p,
            Err(e) => return Err(e),
        };
        Ok(())
    }

    /// Skips the next instruction if `V[x] == V[y]`.
    fn se_vx_vy(&mut self, x: u8, y: u8) -> (r: Result<(), Chip8Error>)
        requires
            old(self).wf(),
            x < 16,
            y < 16,
        ensures
            final(self).wf(),
            follows(
                old(self)@,
                final(self)@,
                r,
                exec_spec(old(self)@, Instruction::SeReg { x, y }, 0),
            ),
    {
        self.pc = match self.skip_target(self.v[x as usize] == self.v[y as usize]) {
            Ok(p) => p,
            Err(e) => return Err(e),
        };
        Ok(())
    }

    /// Sets `V[x]` to `nn`.
    fn ld_vx_byte(&mut self, x: u8, nn: u8) -> (r: Result<(), Chip8Error>)
        requires
            old(self).wf(),
            x < 16,
        ensures
            final(self).wf(),
            follows(
                old(self)@,
                final(self)@,
                r,
                exec_spec(old(self)@, Instruction::LdByte { x, nn }, 0),
            ),
    {
        let pc = match self.next_pc() {
            Ok(p) => p,
            Err(e) => return Err(e),
        };
        self.v[x as usize] = nn;
        self.pc = pc;
        Ok(())
    }

    /// Adds `nn` to `V[x]`, wrapping, with no flag.
    fn add_vx_byte(&mut self, x: u8, nn: u8) -> (r: Result<(), Chip8Error>)
        requires
            old(self).wf(),
            x < 16,
        ensures
            final(self).wf(),
            follows(
                old(self)@,
                final(self)@,
                r,
                exec_spec(old(self)@, Instruction::AddByte { x, nn }, 0),
            ),
    {
        let pc = match self.next_pc() {
            Ok(p) => p,
            Err(e) => return Err(e),
        };
        self.v[x as usize] = ((self.v[x as usize] as u16 + nn as u16) % 256) as u8;
        self.pc = pc;
        Ok(())
    }

    /// Copies `V[y]` into `V[x]`.
    fn ld_vx_vy(&mut self, x: u8, y: u8) -> (r: Result<(), Chip8Error>)
        requires
            old(self).wf(),
            x < 16,
            y < 16,
        ensures
            final(self).wf(),
            follows(
                old(self)@,
                final(self)@,
                r,
                exec_spec(old(self)@, Instruction::LdReg { x, y }, 0),
            ),
    {
        let pc = match self.next_pc() {
            Ok(p) => p,
            Err(e) => return Err(e),
        };
        self.v[x as usize] = self.v[y as usize];
        self.pc = pc;
        Ok(())
    }

    /// ORs `V[y]` into `V[x]`.
    fn or_vx_vy(&mut self, x: u8, y: u8) -> (r: Result<(), Chip8Error>)
        requires
            old(self).wf(),
            x < 16,
            y < 16,
        ensures
            final(self).wf(),
            follows(
                old(self)@,
                final(self)@,
                r,
                exec_spec(old(self)@, Instruction::Or { x, y }, 0),
            ),
    {
        let pc = match self.next_pc() {
            Ok(p) => p,
            Err(e) => return Err(e),
        };
        self.v[x as usize] = self.v[x as usize] | self.v[y as usize];
        self.pc = pc;
        Ok(())
    }

    /// ANDs `V[y]` into `V[x]`.
    fn and_vx_vy(&mut self, x: u8, y: u8) -> (r: Result<(), Chip8Error>)
        requires
            old(self).wf(),
            x < 16,
            y < 16,
        ensures
            final(self).wf(),
            follows(
                old(self)@,
                final(self)@,
                r,
                exec_spec(old(self)@, Instruction::And { x, y }, 0),
            ),
    {
        let pc = match self.next_pc() {
            Ok(p) => p,
            Err(e) => return Err(e),
        };
        self.v[x as usize] = self.v[x as usize] & self.v[y as usize];
        self.pc = pc;
        Ok(())
    }

    /// XORs `V[y]` into `V[x]`.
    fn xor_vx_vy(&mut self, x: u8, y: u8) -> (r: Result<(), Chip8Error>)
        requires
            old(self).wf(),
            x < 16,
            y < 16,
        ensures
            final(self).wf(),
            follows(
                old(self)@,
                final(self)@,
                r,
                exec_spec(old(self)@, Instruction::Xor { x, y }, 0),
            ),
    {
        let pc = match self.next_pc() {
            Ok(p) => p,
            Err(e) => return Err(e),
        };
        self.v[x as usize] = self.v[x as usize] ^ self.v[y as usize];
        self.pc = pc;
        Ok(())
    }

    /// Adds `V[y]` to `V[x]` modulo 256; `V[F]` is 1 on a carry, else 0.
    fn add_vx_vy(&mut self, x: u8, y: u8) -> (r: Result<(), Chip8Error>)
        requires
            old(self).wf(),
            x < 16,
            y < 16,
        ensures
            final(self).wf(),
            follows(
                old(self)@,
                final(self)@,
                r,
                exec_spec(old(self)@, Instruction::AddReg { x, y }, 0),
            ),
    {
        let pc = match self.next_pc() {
            Ok(p) => p,
            Err(e) => return Err(e),
        };
        let sum: u16 = self.v[x as usize] as u16 + self.v[y as usize] as u16;
        self.v[FLAG as usize] = if sum > 255 { 1 } else { 0 };
        self.v[x as usize] = (sum % 256) as u8;
        self.pc = pc;
        Ok(())
    }

    /// Sets `V[x]` to `V[x] - V[y]` modulo 256; `V[F]` is 1 when no borrow occurs.
    fn sub_vx_vy(&mut self, x: u8, y: u8) -> (r: Result<(), Chip8Error>)
        requires
            old(self).wf(),
            x < 16,
            y < 16,
        ensures
            final(self).wf(),
            follows(
                old(self)@,
                final(self)@,
                r,
                exec_spec(old(self)@, Instruction::Sub { x, y }, 0),
            ),
    {
        let pc = match self.next_pc() {
            Ok(p) => p,
            Err(e) => return Err(e),
        };
        let a = self.v[x as usize];
        let b = self.v[y as usize];
        self.v[FLAG as usize] = if a >= b { 1 } else { 0 };
        self.v[x as usize] = a.wrapping_sub(b);
        self.pc = pc;
        Ok(())
    }

    /// Shifts `V[x]` right by one; `V[F]` gets the bit shifted out.
    fn shr_vx(&mut self, x: u8) -> (r: Result<(), Chip8Error>)
        requires
            old(self).wf(),
            x < 16,
        ensures
            final(self).wf(),
            follows(
                old(self)@,
                final(self)@,
                r,
                exec_spec(old(self)@, Instruction::Shr { x }, 0),
            ),
    {
        let pc = match self.next_pc() {
            Ok(p) => p,
            Err(e) => return Err(e),
        };
        let a = self.v[x as usize];
        self.v[FLAG as usize] = if a % 2 == 1 { 1 } else { 0 };
        self.v[x as usize] = a / 2;
        self.pc = pc;
        Ok(())
    }

    /// Sets `V[x]` to `V[y] - V[x]` modulo 256; `V[F]` is 1 when no borrow occurs.
    fn subn_vx_vy(&mut self, x: u8, y: u8) -> (r: Result<(), Chip8Error>)
        requires
            old(self).wf(),
            x < 16,
            y < 16,
        ensures
            final(self).wf(),
            follows(
                old(self)@,
                final(self)@,
                r,
                exec_spec(old(self)@, Instruction::Subn { x, y }, 0),
            ),
    {
        let pc = match self.next_pc() {
            Ok(p) => p,
            Err(e) => return Err(e),
        };
        let a = self.v[x as usize];
        let b = self.v[y as usize];
        self.v[FLAG as usize] = if b >= a { 1 } else { 0 };
        self.v[x as usize] = b.wrapping_sub(a);
        self.pc = pc;
        Ok(())
    }

    /// Shifts `V[x]` left by one, modulo 256; `V[F]` gets the bit shifted out.
    fn shl_vx(&mut self, x: u8) -> (r: Result<(), Chip8Error>)
        requires
            old(self).wf(),
            x < 16,
        ensures
            final(self).wf(),
            follows(
                old(self)@,
                final(self)@,
                r,
                exec_spec(old(self)@, Instruction::Shl { x }, 0),
            ),
    {
        let pc = match self.next_pc() {
            Ok(p) => p,
            Err(e) => return Err(e),
        };
        let a = self.v[x as usize];
        self.v[FLAG as usize] = if a >= 128 { 1 } else { 0 };
        self.v[x as usize] = ((a as u16 * 2) % 256) as u8;
        self.pc = pc;
        Ok(())
    }

    /// Skips the next instruction if `V[x] != V[y]`.
    fn sne_vx_vy(&mut self, x: u8, y: u8) -> (r: Result<(), Chip8Error>)
        requires
            old(self).wf(),
            x < 16,
            y < 16,
        ensures
            final(self).wf(),
            follows(
                old(self)@,
                final(self)@,
                r,
                exec_spec(old(self)@, Instruction::SneReg { x, y }, 0),
            ),
    {
        self.pc = match self.skip_target(self.v[x as usize] != self.v[y as usize]) {
            Ok(p) => p,
            Err(e) => return Err(e),
        };
        Ok(())
    }

    /// Sets `I` to `addr`.
    fn ld_index_addr(&mut self, addr: u16) -> (r: Result<(), Chip8Error>)
        requires
            old(self).wf(),
            addr < 0x1000,
        ensures
            final(self).wf(),
            follows(
                old(self)@,
                final(self)@,
                r,
                exec_spec(old(self)@, Instruction::LdIndex { addr }, 0),
            ),
    {
        let pc = match self.next_pc() {
            Ok(p) => p,
            Err(e) => return Err(e),
        };
        self.index = addr;
        self.pc = pc;
        Ok(())
    }

    /// Jumps to `addr + V[0]`.
    fn jp_v0_addr(&mut self, addr: u16) -> (r: Result<(), Chip8Error>)
        requires
            old(self).wf(),
            addr < 0x1000,
        ensures
            final(self).wf(),
            follows(
                old(self)@,
                final(self)@,
                r,
                exec_spec(old(self)@, Instruction::JpV0 { addr }, 0),
            ),
    {
        self.pc = match pc_at(addr as usize + self.v[0] as usize) {
            Ok(p) => p,
            Err(e) => return Err(e),
        };
        Ok(())
    }

    /// Sets `V[x]` to the random byte `rnd` masked with `nn`.
    fn rnd_vx_byte(&mut self, x: u8, nn: u8, rnd: u8) -> (r: Result<(), Chip8Error>)
        requires
            old(self).wf(),
            x < 16,
        ensures
            final(self).wf(),
            follows(
                old(self)@,
                final(self)@,
                r,
                exec_spec(old(self)@, Instruction::Rnd { x, nn }, rnd),
            ),
    {
        let pc = match self.next_pc() {
            Ok(p) => p,
            Err(e) => return Err(e),
        };
        self.v[x as usize] = rnd & nn;
        self.pc = pc;
        Ok(())
    }

    /// Skips the next instruction if the key `V[x]` is down.
    fn skp_vx(&mut self, x: u8) -> (r: Result<(), Chip8Error>)
        requires
            old(self).wf(),
            x < 16,
        ensures
            final(self).wf(),
            follows(
                old(self)@,
                final(self)@,
                r,
                exec_spec(old(self)@, Instruction::Skp { x }, 0),
            ),
    {
        let k = self.v[x as usize];
        let down = (k as usize) < self.keys.len() && self.keys[k as usize];
        self.pc = match self.skip_target(down) {
            Ok(p) => p,
            Err(e) => return Err(e),
        };
        Ok(())
    }

    /// Skips the next instruction if the key `V[x]` is up.
    fn sknp_vx(&mut self, x: u8) -> (r: Result<(), Chip8Error>)
        requires
            old(self).wf(),
            x < 16,
        ensures
            final(self).wf(),
            follows(
                old(self)@,
                final(self)@,
                r,
                exec_spec(old(self)@, Instruction::Sknp { x }, 0),
            ),
    {
        let k = self.v[x as usize];
        let down = (k as usize) < self.keys.len() && self.keys[k as usize];
        self.pc = match self.skip_target(!down) {
            Ok(p) => p,
            Err(e) => return Err(e),
        };
        Ok(())
    }

    /// Copies the delay timer into `V[x]`.
    fn ld_vx_dt(&mut self, x: u8) -> (r: Result<(), Chip8Error>)
        requires
            old(self).wf(),
            x < 16,
        ensures
            final(self).wf(),
            follows(
                old(self)@,
                final(self)@,
                r,
                exec_spec(old(self)@, Instruction::LdVxDt { x }, 0),
            ),
    {
        let pc = match self.next_pc() {
            Ok(p) => p,
            Err(e) => return Err(e),
        };
        self.v[x as usize] = self.dt;
        self.pc = pc;
        Ok(())
    }

    /// Starts waiting for a key to store in `V[x]`; `PC` stays.
    fn ld_vx_key(&mut self, x: u8) -> (r: Result<(), Chip8Error>)
        requires
            old(self).wf(),
            x < 16,
        ensures
            final(self).wf(),
            follows(
                old(self)@,
                final(self)@,
                r,
                exec_spec(old(self)@, Instruction::LdKey { x }, 0),
            ),
    {
        self.waiting = Some(x);
        self.pressed = None;
        Ok(())
    }

    /// Sets the delay timer to `V[x]`.
    fn ld_dt_vx(&mut self, x: u8) -> (r: Result<(), Chip8Error>)
        requires
            old(self).wf(),
            x < 16,
        ensures
            final(self).wf(),
            follows(
                old(self)@,
                final(self)@,
                r,
                exec_spec(old(self)@, Instruction::LdDtVx { x }, 0),
            ),
    {
        let pc = match self.next_pc() {
            Ok(p) => p,
            Err(e) => return Err(e),
        };
        self.dt = self.v[x as usize];
        self.pc = pc;
        Ok(())
    }

    /// Sets the sound timer to `V[x]`.
    fn ld_st_vx(&mut self, x: u8) -> (r: Result<(), Chip8Error>)
        requires
            old(self).wf(),
            x < 16,
        ensures
            final(self).wf(),
            follows(
                old(self)@,
                final(self)@,
                r,
                exec_spec(old(self)@, Instruction::LdStVx { x }, 0),
            ),
    {
        let pc = match self.next_pc() {
            Ok(p) => p,
            Err(e) => return Err(e),
        };
        self.st = self.v[x as usize];
        self.pc = pc;
        Ok(())
    }

    /// Adds `V[x]` to `I`, wrapping within the 12-bit address space.
    fn add_index_vx(&mut self, x: u8) -> (r: Result<(), Chip8Error>)
        requires
            old(self).wf(),
            x < 16,
        ensures
            final(self).wf(),
            follows(
                old(self)@,
                final(self)@,
                r,
                exec_spec(old(self)@, Instruction::AddIndex { x }, 0),
            ),
    {
        let pc = match self.next_pc() {
            Ok(p) => p,
            Err(e) => return Err(e),
        };
        self.index = ((self.index as usize + self.v[x as usize] as usize) % MEMORY_SIZE) as u16;
        self.pc = pc;
        Ok(())
    }

    /// Points `I` at the glyph of the digit `V[x]`.
    fn ld_index_vx_sprite(&mut self, x: u8) -> (r: Result<(), Chip8Error>)
        requires
            old(self).wf(),
            x < 16,
        ensures
            final(self).wf(),
            follows(
                old(self)@,
                final(self)@,
                r,
                exec_spec(old(self)@, Instruction::LdFont { x }, 0),
            ),
    {
        let pc = match self.next_pc() {
            Ok(p) => p,
            Err(e) => return Err(e),
        };
        self.index = FONT_BASE + self.v[x as usize] as u16 * GLYPH_BYTES;
        self.pc = pc;
        Ok(())
    }

    /// Stores the hundreds, tens and ones digits of `V[x]` at `I`, `I + 1` and `I + 2`.
    fn ld_bcd_vx(&mut self, x: u8) -> (r: Result<(), Chip8Error>)
        requires
            old(self).wf(),
            x < 16,
        ensures
            final(self).wf(),
            follows(
                old(self)@,
                final(self)@,
                r,
                exec_spec(old(self)@, Instruction::LdBcd { x }, 0),
            ),
    {
        let i = self.index as usize;
        if i + 3 > MEMORY_SIZE {
            return Err(Chip8Error::MemoryFault { addr: MEMORY_SIZE });
        }
        let pc = match self.next_pc() {
            Ok(p) => p,
            Err(e) => return Err(e),
        };
        let val = self.v[x as usize];
        self.memory[i] = val / 100;
        self.memory[i + 1] = (val / 10) % 10;
        self.memory[i + 2] = val % 10;
        self.pc = pc;
        Ok(())
    }

    /// Stores `V[0..=x]` in memory from `I` on; `I` is unchanged.
    fn ld_index_imm_vx(&mut self, x: u8) -> (r: Result<(), Chip8Error>)
        requires
            old(self).wf(),
            x < 16,
        ensures
            final(self).wf(),
            follows(
                old(self)@,
                final(self)@,
                r,
                exec_spec(old(self)@, Instruction::StoreRegs { x }, 0),
            ),
    {
        let base = self.index as usize;
        if base + x as usize + 1 > MEMORY_SIZE {
            return Err(Chip8Error::MemoryFault { addr: MEMORY_SIZE });
        }
        let pc = match self.next_pc() {
            Ok(p) => p,
            Err(e) => return Err(e),
        };
        let ghost s0 = self@;
        let mut i: usize = 0;
        while i <= x as usize
            invariant
                s0 == old(self)@,
                s0.wf(),
                x < 16,
                base == s0.index,
                base + x + 1 <= MEMORY_SIZE,
                i <= x + 1,
                self@ == (Chip8View { memory: self@.memory, ..s0 }),
                self@.memory.len() == MEMORY_SIZE,
                forall|a: int|
                    0 <= a < MEMORY_SIZE ==> #[trigger] self@.memory[a] == if base <= a < base + i {
                        s0.v[a - base]
                    } else {
                        s0.memory[a]
                    },
            decreases x + 1 - i,
        {
            self.memory[base + i] = self.v[i];
            i += 1;
        }
        self.pc = pc;
        assert(self@.memory =~= stored_regs(s0, x));
        Ok(())
    }

    /// Loads `V[0..=x]` from memory from `I` on; `I` is unchanged.
    fn ld_vx_index_imm(&mut self, x: u8) -> (r: Result<(), Chip8Error>)
        requires
            old(self).wf(),
            x < 16,
        ensures
            final(self).wf(),
            follows(
                old(self)@,
                final(self)@,
                r,
                exec_spec(old(self)@, Instruction::LoadRegs { x }, 0),
            ),
    {
        let base = self.index as usize;
        if base + x as usize + 1 > MEMORY_SIZE {
            return Err(Chip8Error::MemoryFault { addr: MEMORY_SIZE });
        }
        let pc = match self.next_pc() {
            Ok(p) => p,
            Err(e) => return Err(e),
        };
        let ghost s0 = self@;
        let mut i: usize = 0;
        while i <= x as usize
            invariant
                s0 == old(self)@,
                s0.wf(),
                x < 16,
                base == s0.index,
                base + x + 1 <= MEMORY_SIZE,
                i <= x + 1,
                self@ == (Chip8View { v: self@.v, ..s0 }),
                self@.v.len() == NUM_REGISTERS,
                forall|k: int|
                    0 <= k < NUM_REGISTERS ==> #[trigger] self@.v[k] == if k < i {
                        s0.memory[base + k]
                    } else {
                        s0.v[k]
                    },
            decreases x + 1 - i,
        {
            self.v[i] = self.memory[base + i];
            i += 1;
        }
        self.pc = pc;
        assert(self@.v =~= loaded_regs(s0, x));
        Ok(())
    }

    /// Draws the `n`-row sprite at `I` at `(V[x], V[y])` by XOR, wrapping
    /// around both axes; `V[F]` is 1 if a lit pixel was turned off, else 0.
    fn drw_vx_vy_nib(&mut self, x: u8, y: u8, n: u8) -> (r: Result<(), Chip8Error>)
        requires
            old(self).wf(),
            x < 16,
            y < 16,
            n < 16,
        ensures
            final(self).wf(),
            follows(
                old(self)@,
                final(self)@,
                r,
                exec_spec(old(self)@, Instruction::Drw { x, y, n }, 0),
            ),
    {
        let base = self.index as usize;
        if base + n as usize > MEMORY_SIZE {
            return Err(Chip8Error::MemoryFault { addr: MEMORY_SIZE });
        }
        let pc = match self.next_pc() {
            Ok(p) => p,
            Err(e) => return Err(e),
        };
        let vx = self.v[x as usize];
        let vy = self.v[y as usize];
        let ghost s0 = self@;
        let mut hit = false;
        let mut row: usize = 0;
        assert(self@.fb =~= partial_fb(s0, vx, vy, n, 0, 0));
        while row < n as usize
            invariant
                s0 == old(self)@,
                s0.wf(),
                n < 16,
                vx == s0.reg(x),
                vy == s0.reg(y),
                base == s0.index,
                base + n <= MEMORY_SIZE,
                row <= n,
                self@ == (Chip8View { fb: self@.fb, ..s0 }),
                self@.fb == partial_fb(s0, vx, vy, n, row as int, 0),
                hit == partial_hit(s0, vx, vy, n, row as int, 0),
            decreases n - row,
        {
            let byte = self.memory[base + row];
            let mut col: usize = 0;
            while col < 8
                invariant
                    s0 == old(self)@,
                    s0.wf(),
                    n < 16,
                    vx == s0.reg(x),
                    vy == s0.reg(y),
                    base == s0.index,
                    base + n <= MEMORY_SIZE,
                    row < n,
                    col <= 8,
                    byte == s0.memory[base + row],
                    self@ == (Chip8View { fb: self@.fb, ..s0 }),
                    self@.fb == partial_fb(s0, vx, vy, n, row as int, col as int),
                    hit == partial_hit(s0, vx, vy, n, row as int, col as int),
                decreases 8 - col,
            {
                let cx = (vx as usize + col) % SCREEN_WIDTH;
                let cy = (vy as usize + row) % SCREEN_HEIGHT;
                let c = cy * SCREEN_WIDTH + cx;
                let bit = (byte >> (7 - col as u8)) & 1 == 1;
                proof {
                    lemma_cell_coords(cx as int, cy as int);
                    lemma_wrap_offset(vx as int, col as int, 64);
                    lemma_wrap_offset(vy as int, row as int, 32);
                    assert(sprite_covers(s0, vx, vy, n, c as int) == bit);
                    assert forall|c2: int| 0 <= c2 < SCREEN_CELLS implies #[trigger] flips_upto(
                        s0,
                        vx,
                        vy,
                        n,
                        c2,
                        row as int,
                        col + 1,
                    ) == (flips_upto(s0, vx, vy, n, c2, row as int, col as int) || (c2 == c
                        && bit)) by {
                        lemma_cell_split(c2);
                        lemma_wrap_back(vx as int, cell_x(c2), 64);
                        lemma_wrap_back(vy as int, cell_y(c2), 32);
                    }
                }
                let ghost hit0 = hit;
                if bit {
                    if self.fb[c] {
                        hit = true;
                    }
                    let flipped = !self.fb[c];
                    self.fb[c] = flipped;
                }
                proof {
                    assert(self@.fb =~= partial_fb(s0, vx, vy, n, row as int, col + 1));
                    if hit {
                        if !hit0 {
                            assert(flips_upto(s0, vx, vy, n, c as int, row as int, col + 1));
                        } else {
                            let w = choose|w: int|
                                0 <= w < SCREEN_CELLS && s0.fb[w] && #[trigger] flips_upto(
                                    s0,
                                    vx,
                                    vy,
                                    n,
                                    w,
                                    row as int,
                                    col as int,
                                );
                            assert(flips_upto(s0, vx, vy, n, w, row as int, col + 1));
                        }
                    } else {
                        assert(!partial_hit(s0, vx, vy, n, row as int, col + 1));
                    }
                }
                col += 1;
            }
            proof {
                assert forall|c2: int| 0 <= c2 < SCREEN_CELLS implies #[trigger] flips_upto(
                    s0,
                    vx,
                    vy,
                    n,
                    c2,
                    row as int,
                    8,
                ) == flips_upto(s0, vx, vy, n, c2, row + 1, 0) by {}
                assert(self@.fb =~= partial_fb(s0, vx, vy, n, row + 1, 0));
                if hit {
                    let w = choose|w: int|
                        0 <= w < SCREEN_CELLS && s0.fb[w] && #[trigger] flips_upto(
                            s0,
                            vx,
                            vy,
                            n,
                            w,
                            row as int,
                            8,
                        );
                    assert(flips_upto(s0, vx, vy, n, w, row + 1, 0));
                } else {
                    assert forall|c2: int| 0 <= c2 < SCREEN_CELLS && s0.fb[c2] implies !flips_upto(
                        s0,
                        vx,
                        vy,
                        n,
                        c2,
                        row + 1,
                        0,
                    ) by {
                        assert(!flips_upto(s0, vx, vy, n, c2, row as int, 8));
                    }
                }
            }
            row += 1;
        }
        proof {
            assert forall|c2: int| 0 <= c2 < SCREEN_CELLS implies #[trigger] flips_upto(
                s0,
                vx,
                vy,
                n,
                c2,
                n as int,
                0,
            ) == sprite_covers(s0, vx, vy, n, c2) by {}
            assert(self@.fb =~= drawn_fb(s0, vx, vy, n));
            if hit {
                let w = choose|w: int|
                    0 <= w < SCREEN_CELLS && s0.fb[w] && #[trigger] flips_upto(
                        s0,
                        vx,
                        vy,
                        n,
                        w,
                        n as int,
                        0,
                    );
                assert(sprite_covers(s0, vx, vy, n, w));
            } else {
                assert forall|c2: int| 0 <= c2 < SCREEN_CELLS && s0.fb[c2] implies !sprite_covers(
                    s0,
                    vx,
                    vy,
                    n,
                    c2,
                ) by {
                    assert(!flips_upto(s0, vx, vy, n, c2, n as int, 0));
                }
            }
        }
        self.v[FLAG as usize] = if hit { 1 } else { 0 };
        self.redraw = true;
        self.pc = pc;
        Ok(())
    }

    /// Executes one decoded instruction; `rnd` is the random byte that
    /// `Rnd` masks. On an error the machine is left as it was.
    pub fn execute(&mut self, ins: Instruction, rnd: u8) -> (r: Result<(), Chip8Error>)
        requires
            old(self).wf(),
            ins.wf(),
        ensures
            final(self).wf(),
            follows(old(self)@, final(self)@, r, exec_spec(old(self)@, ins, rnd)),
    {
        match ins {
            Instruction::Cls => self.cls(),
            Instruction::Ret => self.ret(),
            Instruction::Jp { addr } => self.jp_addr(addr),
            Instruction::Call { addr } => self.call_addr(addr),
            Instruction::SeByte { x, nn } => self.se_vx_byte(x, nn),
            Instruction::SneByte { x, nn } => self.sne_vx_byte(x, nn),
            Instruction::SeReg { x, y } => self.se_vx_vy(x, y),
            Instruction::LdByte { x, nn } => self.ld_vx_byte(x, nn),
            Instruction::AddByte { x, nn } => self.add_vx_byte(x, nn),
            Instruction::LdReg { x, y } => self.ld_vx_vy(x, y),
            Instruction::Or { x, y } => self.or_vx_vy(x, y),
            Instruction::And { x, y } => self.and_vx_vy(x, y),
            Instruction::Xor { x, y } => self.xor_vx_vy(x, y),
            Instruction::AddReg { x, y } => self.add_vx_vy(x, y),
            Instruction::Sub { x, y } => self.sub_vx_vy(x, y),
            Instruction::Shr { x } => self.shr_vx(x),
            Instruction::Subn { x, y } => self.subn_vx_vy(x, y),
            Instruction::Shl { x } => self.shl_vx(x),
            Instruction::SneReg { x, y } => self.sne_vx_vy(x, y),
            Instruction::LdIndex { addr } => self.ld_index_addr(addr),
            Instruction::JpV0 { addr } => self.jp_v0_addr(addr),
            Instruction::Rnd { x, nn } => self.rnd_vx_byte(x, nn, rnd),
            Instruction::Drw { x, y, n } => self.drw_vx_vy_nib(x, y, n),
            Instruction::Skp { x } => self.skp_vx(x),
            Instruction::Sknp { x } => self.sknp_vx(x),
            Instruction::LdVxDt { x } => self.ld_vx_dt(x),
            Instruction::LdKey { x } => self.ld_vx_key(x),
            Instruction::LdDtVx { x } => self.ld_dt_vx(x),
            Instruction::LdStVx { x } => self.ld_st_vx(x),
            Instruction::AddIndex { x } => self.add_index_vx(x),
            Instruction::LdFont { x } => self.ld_index_vx_sprite(x),
            Instruction::LdBcd { x } => self.ld_bcd_vx(x),
            Instruction::StoreRegs { x } => self.ld_index_imm_vx(x),
            Instruction::LoadRegs { x } => self.ld_vx_index_imm(x),
            Instruction::Unknown { word } => Err(Chip8Error::InvalidOpcode { word }),
        }
    }

    /// One cycle, with `rnd` as the random byte: while a key wait is
    /// pending, stores the key pressed since it began and moves on, or does
    /// nothing if none was; otherwise fetches, decodes and executes the
    /// instruction at `PC` and returns it.
    pub fn execute_cycle_with_random(&mut self, rnd: u8) -> (r: Result<Option<Instruction>, Chip8Error>)
        requires
            old(self).wf(),
        ensures
            final(self).wf(),
            follows(old(self)@, final(self)@, status(r), cycle_spec(old(self)@, rnd)),
            r matches Ok(Some(ins)) ==> old(self)@.waiting is None && ins == decode_spec(
                fetch_spec(old(self)@),
            ),
            r matches Ok(None) ==> old(self)@.waiting is Some,
            r is Ok ==> final(self)@.pc < MEMORY_SIZE,
    {
        match self.waiting {
            Some(t) => match self.pressed {
                Some(k) => {
                    let pc = match self.next_pc() {
                        Ok(p) => p,
                        Err(e) => return Err(e),
                    };
                    self.v[t as usize] = k;
                    self.waiting = None;
                    self.pressed = None;
                    self.pc = pc;
                    Ok(None)
                },
                None => Ok(None),
            },
            None => {
                let at = self.pc as usize;
                if at + 1 >= MEMORY_SIZE {
                    return Err(Chip8Error::MemoryFault { addr: at + 1 });
                }
                let word = self.memory[at] as u16 * 256 + self.memory[at + 1] as u16;
                let ins = decode(word);
                match self.execute(ins, rnd) {
                    Ok(()) => Ok(Some(ins)),
                    Err(e) => Err(e),
                }
            },
        }
    }

    /// One cycle, drawing a random byte for `Rnd` from the thread-local
    /// generator: the outcome is that of `execute_cycle_with_random` for
    /// some byte.
    pub fn execute_cycle(&mut self) -> (r: Result<Option<Instruction>, Chip8Error>)
        requires
            old(self).wf(),
        ensures
            final(self).wf(),
            exists|b: u8|
                follows(old(self)@, final(self)@, status(r), #[trigger] cycle_spec(old(self)@, b)),
            r matches Ok(Some(ins)) ==> old(self)@.waiting is None && ins == decode_spec(
                fetch_spec(old(self)@),
            ),
            r matches Ok(None) ==> old(self)@.waiting is Some,
            r is Ok ==> final(self)@.pc < MEMORY_SIZE,
    {
        let b = random_byte();
        self.execute_cycle_with_random(b)
    }

    /// Lenient handling of an invalid opcode: steps `PC` over the current
    /// instruction and changes nothing else.
    pub fn skip_instruction(&mut self) -> (r: Result<(), Chip8Error>)
        requires
            old(self).wf(),
        ensures
            final(self).wf(),
            follows(old(self)@, final(self)@, r, next(old(self)@)),
    {
        self.pc = match self.next_pc() {
            Ok(p) => p,
            Err(e) => return Err(e),
        };
        Ok(())
    }
}

} // verus!
