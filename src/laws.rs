use vstd::prelude::*;
use crate::error::Chip8Error;
use crate::instruction::{decode_spec, lemma_decode_wf, Instruction};
use crate::machine::{Chip8View, FLAG, MEMORY_SIZE, SCREEN_CELLS};
use crate::semantics::{
    collides, cycle_spec, exec_spec, fetch_spec, key_down_spec, sprite_covers, tick_spec,
};

verus! {

/// Executing an in-range instruction from a well-formed state gives a
/// well-formed state.
#[verifier::rlimit(40)]
#[verifier::spinoff_prover]
pub proof fn lemma_exec_keeps_wf(s: Chip8View, ins: Instruction, rnd: u8)
    requires
        s.wf(),
        ins.wf(),
    ensures
        exec_spec(s, ins, rnd) matches Ok(t) ==> t.wf(),
{
    match ins {
        Instruction::Call { addr } => {
            if s.stack.len() < 16 {
                let st = s.stack.push(s.pc);
                assert forall|i: int| 0 <= i < st.len() implies #[trigger] st[i] < MEMORY_SIZE by {
                    if i < s.stack.len() {
                        assert(st[i] == s.stack[i]);
                    }
                }
            }
        },
        Instruction::Ret => {
            if s.stack.len() > 0 {
                let st = s.stack.drop_last();
                assert forall|i: int| 0 <= i < st.len() implies #[trigger] st[i] < MEMORY_SIZE by {
                    assert(st[i] == s.stack[i]);
                }
            }
        },
        _ => {},
    }
}

/// Every successful cycle from a reachable state leaves `PC` inside memory,
/// and the state well-formed.
pub proof fn lemma_cycle_keeps_pc_in_memory(s: Chip8View, rnd: u8)
    requires
        s.wf(),
    ensures
        cycle_spec(s, rnd) matches Ok(t) ==> t.wf() && t.pc < MEMORY_SIZE,
{
    if s.waiting is None && s.pc + 1 < MEMORY_SIZE {
        lemma_decode_wf(fetch_spec(s));
        lemma_exec_keeps_wf(s, decode_spec(fetch_spec(s)), rnd);
    }
}

/// Feeds the state of a successful step to the next instruction.
pub open spec fn and_exec(
    r: Result<Chip8View, Chip8Error>,
    ins: Instruction,
    rnd: u8,
) -> Result<Chip8View, Chip8Error> {
    match r {
        Ok(t) => exec_spec(t, ins, rnd),
        Err(e) => Err(e),
    }
}

/// The conditional skips move `PC` by exactly 4 when their condition holds
/// and by exactly 2 otherwise, for every register value and immediate, and
/// change nothing else.
pub proof fn lemma_skip_arithmetic(s: Chip8View, x: u8, y: u8, nn: u8, rnd: u8)
    requires
        s.wf(),
        x < 16,
        y < 16,
        s.pc + 4 < MEMORY_SIZE,
    ensures
        exec_spec(s, Instruction::SeByte { x, nn }, rnd) == Ok::<Chip8View, Chip8Error>(
            Chip8View { pc: (s.pc + if s.reg(x) == nn { 4int } else { 2int }) as u16, ..s },
        ),
        exec_spec(s, Instruction::SneByte { x, nn }, rnd) == Ok::<Chip8View, Chip8Error>(
            Chip8View { pc: (s.pc + if s.reg(x) != nn { 4int } else { 2int }) as u16, ..s },
        ),
        exec_spec(s, Instruction::SeReg { x, y }, rnd) == Ok::<Chip8View, Chip8Error>(
            Chip8View { pc: (s.pc + if s.reg(x) == s.reg(y) { 4int } else { 2int }) as u16, ..s },
        ),
        exec_spec(s, Instruction::SneReg { x, y }, rnd) == Ok::<Chip8View, Chip8Error>(
            Chip8View { pc: (s.pc + if s.reg(x) != s.reg(y) { 4int } else { 2int }) as u16, ..s },
        ),
{
}

/// Whether the sprite drawn at `(vx, vy)` covers some unlit pixel.
pub open spec fn covers_unlit(s: Chip8View, vx: u8, vy: u8, n: u8) -> bool {
    exists|c: int| 0 <= c < SCREEN_CELLS && !s.fb[c] && #[trigger] sprite_covers(s, vx, vy, n, c)
}

/// Drawing the same sprite twice at the same place, with nothing in
/// between, leaves the framebuffer as it was; the second draw reports a
/// collision exactly when the sprite covers some pixel that was unlit
/// before the first.
pub proof fn lemma_draw_twice(s: Chip8View, x: u8, y: u8, n: u8, rnd: u8)
    requires
        s.wf(),
        x < FLAG,
        y < FLAG,
        n < 16,
        s.index + n <= MEMORY_SIZE,
        s.pc + 4 < MEMORY_SIZE,
    ensures
        and_exec(exec_spec(s, Instruction::Drw { x, y, n }, rnd), Instruction::Drw { x, y, n }, rnd)
            is Ok,
        ({
            let t = and_exec(
                exec_spec(s, Instruction::Drw { x, y, n }, rnd),
                Instruction::Drw { x, y, n },
                rnd,
            )->Ok_0;
            &&& t.fb == s.fb
            &&& t.pc == s.pc + 4
            &&& t.reg(FLAG) == if covers_unlit(s, s.reg(x), s.reg(y), n) { 1u8 } else { 0u8 }
        }),
{
    let d = Instruction::Drw { x, y, n };
    let vx = s.reg(x);
    let vy = s.reg(y);
    let s1 = exec_spec(s, d, rnd)->Ok_0;
    assert(s1.reg(x) == vx && s1.reg(y) == vy);
    assert forall|c: int| 0 <= c < SCREEN_CELLS implies #[trigger] sprite_covers(s1, vx, vy, n, c)
        == sprite_covers(s, vx, vy, n, c) by {}
    let t = exec_spec(s1, d, rnd)->Ok_0;
    assert(t.fb =~= s.fb);
    if covers_unlit(s, vx, vy, n) {
        let c = choose|c: int|
            0 <= c < SCREEN_CELLS && !s.fb[c] && #[trigger] sprite_covers(s, vx, vy, n, c);
        assert(sprite_covers(s1, vx, vy, n, c));
        assert(collides(s1, vx, vy, n));
    } else {
        assert forall|c: int| 0 <= c < SCREEN_CELLS && s1.fb[c] implies !sprite_covers(
            s1,
            vx,
            vy,
            n,
            c,
        ) by {
            assert(sprite_covers(s1, vx, vy, n, c) == sprite_covers(s, vx, vy, n, c));
        }
        assert(!collides(s1, vx, vy, n));
    }
}

/// Storing `V[0..=x]` at `I` and later loading them back from the same `I`
/// restores them, whatever the registers held in between, as long as
/// memory was not touched.
pub proof fn lemma_store_load_round_trip(s: Chip8View, x: u8, between: Chip8View, rnd: u8)
    requires
        s.wf(),
        x < 16,
        s.index + x + 1 <= MEMORY_SIZE,
        s.pc + 2 < MEMORY_SIZE,
        between.wf(),
        between.memory == exec_spec(s, Instruction::StoreRegs { x }, rnd)->Ok_0.memory,
        between.index == s.index,
        between.pc + 2 < MEMORY_SIZE,
    ensures
        exec_spec(between, Instruction::LoadRegs { x }, rnd) matches Ok(t) && forall|i: int|
            0 <= i <= x ==> #[trigger] t.v[i] == s.v[i],
{
}

/// Something a driver does to the machine: a timer tick, or a cycle with
/// the given random byte.
pub enum Event {
    Tick,
    Cycle { rnd: u8 },
}

/// The state after a sequence of events, or the first error.
pub open spec fn run(s: Chip8View, evs: Seq<Event>) -> Result<Chip8View, Chip8Error>
    decreases evs.len(),
{
    if evs.len() == 0 {
        Ok(s)
    } else {
        let r = match evs[0] {
            Event::Tick => Ok(tick_spec(s)),
            Event::Cycle { rnd } => cycle_spec(s, rnd),
        };
        match r {
            Ok(t) => run(t, evs.skip(1)),
            Err(e) => Err(e),
        }
    }
}

/// The number of ticks among `evs`.
pub open spec fn tick_count(evs: Seq<Event>) -> nat
    decreases evs.len(),
{
    if evs.len() == 0 {
        0
    } else {
        (if evs[0] is Tick { 1nat } else { 0nat }) + tick_count(evs.skip(1))
    }
}

/// Whether the cycle about to run from `s` executes `LD DT, Vx`.
pub open spec fn sets_delay(s: Chip8View) -> bool {
    s.waiting is None && s.pc + 1 < MEMORY_SIZE && decode_spec(fetch_spec(s)) is LdDtVx
}

/// Whether no cycle among `evs`, run from `s`, writes the delay timer.
pub open spec fn leaves_delay(s: Chip8View, evs: Seq<Event>) -> bool
    decreases evs.len(),
{
    if evs.len() == 0 {
        true
    } else {
        match evs[0] {
            Event::Tick => leaves_delay(tick_spec(s), evs.skip(1)),
            Event::Cycle { rnd } => !sets_delay(s) && match cycle_spec(s, rnd) {
                Ok(t) => leaves_delay(t, evs.skip(1)),
                Err(_) => true,
            },
        }
    }
}

/// A cycle that does not execute `LD DT, Vx` leaves the delay timer alone.
#[verifier::rlimit(40)]
#[verifier::spinoff_prover]
pub proof fn lemma_cycle_keeps_delay(s: Chip8View, rnd: u8)
    requires
        s.wf(),
        !sets_delay(s),
    ensures
        cycle_spec(s, rnd) matches Ok(t) ==> t.delay == s.delay,
{
}

/// The delay timer counts ticks alone: after a run in which no cycle
/// executes `LD DT, Vx`, it has dropped by the number of ticks, stopping
/// at zero, however many cycles came in between.
pub proof fn lemma_delay_counts_ticks(s: Chip8View, evs: Seq<Event>)
    requires
        s.wf(),
        leaves_delay(s, evs),
    ensures
        run(s, evs) matches Ok(t) ==> t.delay == if s.delay >= tick_count(evs) {
            s.delay - tick_count(evs)
        } else {
            0
        },
    decreases evs.len(),
{
    if evs.len() > 0 {
        match evs[0] {
            Event::Tick => {
                lemma_delay_counts_ticks(tick_spec(s), evs.skip(1));
            },
            Event::Cycle { rnd } => {
                lemma_cycle_keeps_delay(s, rnd);
                lemma_cycle_keeps_pc_in_memory(s, rnd);
                if let Ok(t) = cycle_spec(s, rnd) {
                    lemma_delay_counts_ticks(t, evs.skip(1));
                }
            },
        }
    }
}

/// Sixty ticks after the delay timer was set to 60 it reads 0, whatever
/// cycles were interleaved, as long as none of them set it again.
pub proof fn lemma_sixty_ticks_clear_delay(s: Chip8View, evs: Seq<Event>)
    requires
        s.wf(),
        s.delay == 60,
        tick_count(evs) == 60,
        leaves_delay(s, evs),
    ensures
        run(s, evs) matches Ok(t) ==> t.delay == 0,
{
    lemma_delay_counts_ticks(s, evs);
}

/// While a key wait is pending and no key has been pressed, cycles change
/// nothing at all.
pub proof fn lemma_waiting_is_idle(s: Chip8View, evs: Seq<Event>)
    requires
        s.waiting is Some,
        s.pressed is None,
        forall|i: int| 0 <= i < evs.len() ==> #[trigger] evs[i] is Cycle,
    ensures
        run(s, evs) == Ok::<Chip8View, Chip8Error>(s),
    decreases evs.len(),
{
    if evs.len() > 0 {
        assert forall|i: int| 0 <= i < evs.skip(1).len() implies #[trigger] evs.skip(1)[i] is Cycle by {
            assert(evs.skip(1)[i] == evs[i + 1]);
        }
        assert(evs[0] is Cycle);
        lemma_waiting_is_idle(s, evs.skip(1));
    }
}

/// `LD Vx, K` starts a wait without moving `PC`; once key `k` goes down,
/// the next cycle stores `k` in `V[x]`, moves `PC` past the instruction and
/// ends the wait.
pub proof fn lemma_key_ends_wait(s: Chip8View, x: u8, k: u8, rnd: u8)
    requires
        s.wf(),
        x < 16,
        k < 16,
        s.pc + 2 < MEMORY_SIZE,
    ensures
        exec_spec(s, Instruction::LdKey { x }, rnd) is Ok,
        ({
            let w = exec_spec(s, Instruction::LdKey { x }, rnd)->Ok_0;
            &&& w.pc == s.pc
            &&& w.v == s.v
            &&& w.fb == s.fb
            &&& w.waiting == Some(x)
            &&& cycle_spec(key_down_spec(w, k), rnd) is Ok
        }),
        ({
            let w = exec_spec(s, Instruction::LdKey { x }, rnd)->Ok_0;
            let t = cycle_spec(key_down_spec(w, k), rnd)->Ok_0;
            &&& t.v == s.v.update(x as int, k)
            &&& t.pc == s.pc + 2
            &&& t.waiting is None
        }),
{
}

} // verus!
