use vstd::prelude::*;

use crate::opcode::{decoded, Opcode};

verus! {

/// Columns of the framebuffer.
pub const SCREEN_WIDTH: usize = 64;

/// Rows of the framebuffer.
pub const SCREEN_HEIGHT: usize = 32;

/// Bytes of memory; every address is taken modulo this size.
pub const RAM_SIZE: usize = 4096;

/// General-purpose byte registers.
pub const NUM_VARIABLE_REGISTERS: usize = 16;

/// The register that receives carry, borrow and collision outcomes.
pub const FLAG_REGISTER: usize = 15;

/// Where programs are loaded and where execution starts.
pub const START_ADDR: u16 = 0x200;

/// Bytes of the built-in font: sixteen glyphs of five rows each.
pub const FONT_SET_SIZE: usize = 80;

/// Whole nanoseconds after which a 60 Hz timer tick is due.
pub const TICK_NANOS: u64 = 16_666_667;

/// Why execution cannot go on.
#[derive(Clone, Copy, Debug, PartialEq, Eq, Structural)]
pub enum Fault {
    /// A subroutine return found the call stack empty.
    StackUnderflow,
}

/// What one executed instruction amounted to.
#[derive(Clone, Copy, Debug, PartialEq, Eq, Structural)]
pub enum Step {
    /// The instruction was recognised and carried out.
    Done,
    /// The word decoded to no instruction; nothing changed beyond the fetch
    /// and the timers.
    Unknown(Opcode),
}

/// The whole observable state of the interpreter.
pub struct Machine {
    pub ram: Seq<u8>,
    /// Rows of pixels, each `SCREEN_WIDTH` long.
    pub screen: Seq<Seq<bool>>,
    pub pc: u16,
    pub index: u16,
    pub stack: Seq<u16>,
    pub delay: u8,
    pub sound: u8,
    pub regs: Seq<u8>,
    pub keys: Seq<bool>,
    pub redraw: bool,
    pub shift_uses_y: bool,
    pub jump_uses_x: bool,
    /// Clock reading, in nanoseconds, of the last timer tick.
    pub last_tick: u64,
}

impl Machine {
    /// Sizes match the hardware and the index register holds a 12-bit address.
    pub open spec fn wf(self) -> bool {
        &&& self.ram.len() == RAM_SIZE
        &&& self.regs.len() == NUM_VARIABLE_REGISTERS
        &&& self.keys.len() == 16
        &&& self.screen.len() == SCREEN_HEIGHT
        &&& forall|r: int| 0 <= r < SCREEN_HEIGHT ==> #[trigger] self.screen[r].len() == SCREEN_WIDTH
        &&& self.index <= 0xFFF
    }
}

/// The glyphs 0-F, five rows of one byte each.
pub open spec fn font() -> Seq<u8> {
    seq![
        0xF0, 0x90, 0x90, 0x90, 0xF0, 0x20, 0x60, 0x20, 0x20, 0x70,
        0xF0, 0x10, 0xF0, 0x80, 0xF0, 0xF0, 0x10, 0xF0, 0x10, 0xF0,
        0x90, 0x90, 0xF0, 0x10, 0x10, 0xF0, 0x80, 0xF0, 0x10, 0xF0,
        0xF0, 0x80, 0xF0, 0x90, 0xF0, 0xF0, 0x10, 0x20, 0x40, 0x40,
        0xF0, 0x90, 0xF0, 0x90, 0xF0, 0xF0, 0x90, 0xF0, 0x10, 0xF0,
        0xF0, 0x90, 0xF0, 0x90, 0x90, 0xE0, 0x90, 0xE0, 0x90, 0xE0,
        0xF0, 0x80, 0x80, 0x80, 0xF0, 0xE0, 0x90, 0x90, 0x90, 0xE0,
        0xF0, 0x80, 0xF0, 0x80, 0xF0, 0xF0, 0x80, 0xF0, 0x80, 0x80,
    ]
}

/// A framebuffer with every pixel off.
pub open spec fn blank_screen() -> Seq<Seq<bool>> {
    Seq::new(SCREEN_HEIGHT as nat, |_r: int| Seq::new(SCREEN_WIDTH as nat, |_c: int| false))
}

/// The machine at start-up: the font at address 0, all else zero, execution
/// at the load address.
pub open spec fn initial(shift_uses_y: bool, jump_uses_x: bool, last_tick: u64) -> Machine {
    Machine {
        ram: Seq::new(RAM_SIZE as nat, |a: int| if a < FONT_SET_SIZE { font()[a] } else { 0u8 }),
        screen: blank_screen(),
        pc: START_ADDR,
        index: 0,
        stack: Seq::empty(),
        delay: 0,
        sound: 0,
        regs: Seq::new(NUM_VARIABLE_REGISTERS as nat, |_r: int| 0u8),
        keys: Seq::new(16, |_k: int| false),
        redraw: false,
        shift_uses_y,
        jump_uses_x,
        last_tick,
    }
}

/// `m` with `program` copied into memory from the load address on.
pub open spec fn loaded(m: Machine, program: Seq<u8>) -> Machine {
    Machine {
        ram: Seq::new(
            m.ram.len(),
            |a: int|
                if START_ADDR <= a < START_ADDR + program.len() {
                    program[a - START_ADDR]
                } else {
                    m.ram[a]
                },
        ),
        ..m
    }
}

// ---- fetch and timers ----

/// The big-endian word at the program counter.
pub open spec fn instruction(m: Machine) -> u16 {
    (m.ram[m.pc as int % 4096] as int * 256 + m.ram[(m.pc + 1) % 4096] as int) as u16
}

/// `m` after its two instruction bytes were read.
pub open spec fn fetched(m: Machine) -> Machine {
    Machine { pc: ((m.pc + 2) % 4096) as u16, ..m }
}

/// At least 1/60 second has passed from `last` to `now`.
pub open spec fn tick_due(last: u64, now: u64) -> bool {
    last <= now && 60 * (now - last) >= 1_000_000_000
}

/// One down, never below zero.
pub open spec fn sat_dec(t: u8) -> u8 {
    if t == 0 { 0 } else { (t - 1) as u8 }
}

/// Both timers decremented, when a tick is due at `now`.
pub open spec fn tick(m: Machine, now: u64) -> Machine {
    if tick_due(m.last_tick, now) {
        Machine { delay: sat_dec(m.delay), sound: sat_dec(m.sound), last_tick: now, ..m }
    } else {
        m
    }
}

// ---- the instruction handlers ----

/// `m` with register `x` set to `v`.
pub open spec fn with_reg(m: Machine, x: int, v: u8) -> Machine {
    Machine { regs: m.regs.update(x, v), ..m }
}

/// Skips the next two-byte instruction when `cond` holds.
pub open spec fn skip_if(m: Machine, cond: bool) -> Machine {
    if cond { Machine { pc: (m.pc + 2) as u16, ..m } } else { m }
}

/// Every pixel off; the host is told to redraw.
pub open spec fn clear_screen(m: Machine) -> Machine {
    Machine { screen: blank_screen(), redraw: true, ..m }
}

/// Execution continues at `target`.
pub open spec fn jump(m: Machine, target: u16) -> Machine {
    Machine { pc: target, ..m }
}

/// The program counter, already past the call, is pushed; execution
/// continues at `target`.
pub open spec fn subroutine_call(m: Machine, target: u16) -> Machine {
    Machine { stack: m.stack.push(m.pc), pc: target, ..m }
}

/// Execution continues at the popped return address.
pub open spec fn subroutine_exit(m: Machine) -> Machine {
    Machine { pc: m.stack.last(), stack: m.stack.drop_last(), ..m }
}

/// `v` added to register `x`, wrapping; the flag register is untouched.
pub open spec fn add_val(m: Machine, x: int, v: u8) -> Machine {
    with_reg(m, x, ((m.regs[x] + v) % 256) as u8)
}

/// Sum into `x`, then carry (1) or none (0) into the flag register.
pub open spec fn add_regs(m: Machine, x: int, y: int) -> Machine {
    let sum = m.regs[x] + m.regs[y];
    let r = m.regs.update(x, (sum % 256) as u8);
    Machine { regs: r.update(FLAG_REGISTER as int, if sum > 255 { 1u8 } else { 0u8 }), ..m }
}

/// `a - b` wrapped into `x`, then 0 on a borrow and 1 otherwise into the
/// flag register.
pub open spec fn sub_into(m: Machine, x: int, a: u8, b: u8) -> Machine {
    let r = m.regs.update(x, ((a - b + 256) % 256) as u8);
    Machine { regs: r.update(FLAG_REGISTER as int, if a < b { 0u8 } else { 1u8 }), ..m }
}

/// What a shift starts from: register `y` under the legacy quirk, else `x`.
pub open spec fn shift_source(m: Machine, x: int, y: int) -> u8 {
    if m.shift_uses_y { m.regs[y] } else { m.regs[x] }
}

/// The source into `x`, its bit 0 into the flag register, then `x` shifted
/// right in place.
pub open spec fn shift_right(m: Machine, x: int, y: int) -> Machine {
    let s = shift_source(m, x, y);
    let r = m.regs.update(x, s).update(FLAG_REGISTER as int, s % 2);
    Machine { regs: r.update(x, r[x] / 2), ..m }
}

/// The source into `x`, its bit 7 into the flag register, then `x` shifted
/// left in place.
pub open spec fn shift_left(m: Machine, x: int, y: int) -> Machine {
    let s = shift_source(m, x, y);
    let r = m.regs.update(x, s).update(FLAG_REGISTER as int, s / 128);
    Machine { regs: r.update(x, ((r[x] * 2) % 256) as u8), ..m }
}

/// Register 0, or register `x` under the jump quirk, plus `offset`; not masked.
pub open spec fn jump_with_offset(m: Machine, x: int, offset: u16) -> Machine {
    let base = if m.jump_uses_x { m.regs[x] } else { m.regs[0] };
    Machine { pc: (base + offset) as u16, ..m }
}

/// Whether sprite byte `row` has its pixel `j` (0 the leftmost) set.
pub open spec fn sprite_bit(row: u8, j: int) -> bool {
    (row >> ((7 - j) as u8)) & 1 == 1
}

/// Whether a set sprite bit lands on cell (`r`, `c`), the sprite being `n`
/// rows read from the index register, its corner at (`x0`, `y0`).
pub open spec fn covers(m: Machine, x0: int, y0: int, n: int, r: int, c: int) -> bool {
    &&& y0 <= r < y0 + n
    &&& x0 <= c < x0 + 8
    &&& sprite_bit(m.ram[(m.index + (r - y0)) % 4096], c - x0)
}

/// Column of the sprite's corner: register `x`, wrapped to the screen.
pub open spec fn corner_x(m: Machine, x: int) -> int {
    m.regs[x] as int % SCREEN_WIDTH as int
}

/// Row of the sprite's corner: register `y`, wrapped to the screen.
pub open spec fn corner_y(m: Machine, y: int) -> int {
    m.regs[y] as int % SCREEN_HEIGHT as int
}

/// Whether drawing turns some lit pixel off.
pub open spec fn collides(m: Machine, x: int, y: int, n: int) -> bool {
    exists|r: int, c: int|
        0 <= r < SCREEN_HEIGHT && 0 <= c < SCREEN_WIDTH && #[trigger] covers(
            m,
            corner_x(m, x),
            corner_y(m, y),
            n,
            r,
            c,
        ) && m.screen[r][c]
}

/// Every covered pixel flipped; pixels past the edges are not drawn.
pub open spec fn draw(m: Machine, x: int, y: int, n: int) -> Machine {
    let x0 = corner_x(m, x);
    let y0 = corner_y(m, y);
    Machine {
        screen: Seq::new(
            SCREEN_HEIGHT as nat,
            |r: int| Seq::new(SCREEN_WIDTH as nat, |c: int| m.screen[r][c] != covers(m, x0, y0, n, r, c)),
        ),
        regs: m.regs.update(FLAG_REGISTER as int, if collides(m, x, y, n) { 1u8 } else { 0u8 }),
        redraw: true,
        ..m
    }
}

/// Whether logical key `k` exists and is held.
pub open spec fn key_held(m: Machine, k: u8) -> bool {
    k < 16 && m.keys[k as int]
}

/// Index register plus register `x`; past 0xFFF it wraps into 12 bits and
/// sets the flag register, otherwise the flag register is untouched.
pub open spec fn add_to_index(m: Machine, x: int) -> Machine {
    let sum = m.index + m.regs[x];
    if sum > 0xFFF {
        Machine { index: (sum - 0x1000) as u16, regs: m.regs.update(FLAG_REGISTER as int, 1u8), ..m }
    } else {
        Machine { index: sum as u16, ..m }
    }
}

/// `k` is the lowest held key.
pub open spec fn lowest_held(keys: Seq<bool>, k: int) -> bool {
    &&& 0 <= k < 16
    &&& keys[k]
    &&& forall|j: int| 0 <= j < k ==> !keys[j]
}

/// Some key is held.
pub open spec fn any_held(keys: Seq<bool>) -> bool {
    exists|k: int| 0 <= k < 16 && keys[k]
}

/// The lowest held key's index into `x`; with no key held, the program
/// counter goes back two bytes so the instruction runs again.
pub open spec fn wait_for_key(m: Machine, x: int) -> Machine {
    if any_held(m.keys) {
        with_reg(m, x, (choose|k: int| lowest_held(m.keys, k)) as u8)
    } else {
        Machine { pc: ((m.pc + 4094) % 4096) as u16, ..m }
    }
}

// ---- dispatch ----

/// A recognised instruction, carried out.
pub open spec fn done(m: Machine) -> (Machine, Result<Step, Fault>) {
    (m, Ok(Step::Done))
}

/// A word that names no instruction: nothing changes.
pub open spec fn unknown(m: Machine, op: Opcode) -> (Machine, Result<Step, Fault>) {
    (m, Ok(Step::Unknown(op)))
}

/// Family 0: clear the screen, or return from a subroutine.
pub open spec fn dispatch_0(m: Machine, op: Opcode) -> (Machine, Result<Step, Fault>) {
    if op.nnn == 0x0E0 {
        done(clear_screen(m))
    } else if op.nnn == 0x0EE {
        if m.stack.len() == 0 {
            (m, Err(Fault::StackUnderflow))
        } else {
            done(subroutine_exit(m))
        }
    } else {
        unknown(m, op)
    }
}

/// Family 8: register-to-register arithmetic and logic, chosen by `n`.
pub open spec fn dispatch_8(m: Machine, op: Opcode) -> (Machine, Result<Step, Fault>) {
    let x = op.x as int;
    let y = op.y as int;
    if op.n == 0x0 {
        done(with_reg(m, x, m.regs[y]))
    } else if op.n == 0x1 {
        done(with_reg(m, x, m.regs[x] | m.regs[y]))
    } else if op.n == 0x2 {
        done(with_reg(m, x, m.regs[x] & m.regs[y]))
    } else if op.n == 0x3 {
        done(with_reg(m, x, m.regs[x] ^ m.regs[y]))
    } else if op.n == 0x4 {
        done(add_regs(m, x, y))
    } else if op.n == 0x5 {
        done(sub_into(m, x, m.regs[x], m.regs[y]))
    } else if op.n == 0x6 {
        done(shift_right(m, x, y))
    } else if op.n == 0x7 {
        done(sub_into(m, x, m.regs[y], m.regs[x]))
    } else if op.n == 0xE {
        done(shift_left(m, x, y))
    } else {
        unknown(m, op)
    }
}

/// Family F: timers, key wait and index arithmetic, chosen by `nn`.
pub open spec fn dispatch_f(m: Machine, op: Opcode) -> (Machine, Result<Step, Fault>) {
    let x = op.x as int;
    if op.nn == 0x07 {
        done(with_reg(m, x, m.delay))
    } else if op.nn == 0x0A {
        done(wait_for_key(m, x))
    } else if op.nn == 0x15 {
        done(Machine { delay: m.regs[x], ..m })
    } else if op.nn == 0x18 {
        done(Machine { sound: m.regs[x], ..m })
    } else if op.nn == 0x1E {
        done(add_to_index(m, x))
    } else {
        unknown(m, op)
    }
}

/// The effect of `op` on a machine whose program counter already points
/// past it; `random` is the byte that the random instruction draws.
pub open spec fn dispatch(m: Machine, op: Opcode, random: u8) -> (Machine, Result<Step, Fault>) {
    let x = op.x as int;
    let y = op.y as int;
    let c = op.category;
    if c == 0x0 {
        dispatch_0(m, op)
    } else if c == 0x1 {
        done(jump(m, op.nnn))
    } else if c == 0x2 {
        done(subroutine_call(m, op.nnn))
    } else if c == 0x3 {
        done(skip_if(m, m.regs[x] == op.nn))
    } else if c == 0x4 {
        done(skip_if(m, m.regs[x] != op.nn))
    } else if c == 0x5 {
        if op.n == 0 { done(skip_if(m, m.regs[x] == m.regs[y])) } else { unknown(m, op) }
    } else if c == 0x6 {
        done(with_reg(m, x, op.nn))
    } else if c == 0x7 {
        done(add_val(m, x, op.nn))
    } else if c == 0x8 {
        dispatch_8(m, op)
    } else if c == 0x9 {
        if op.n == 0 { done(skip_if(m, m.regs[x] != m.regs[y])) } else { unknown(m, op) }
    } else if c == 0xA {
        done(Machine { index: op.nnn, ..m })
    } else if c == 0xB {
        done(jump_with_offset(m, x, op.nnn))
    } else if c == 0xC {
        done(with_reg(m, x, random & op.nn))
    } else if c == 0xD {
        done(draw(m, x, y, op.n as int))
    } else if c == 0xE {
        if op.nn == 0x9E {
            done(skip_if(m, key_held(m, m.regs[x])))
        } else if op.nn == 0xA1 {
            done(skip_if(m, !key_held(m, m.regs[x])))
        } else {
            unknown(m, op)
        }
    } else {
        dispatch_f(m, op)
    }
}

/// One execution step at clock reading `now`: fetch, decode, tick the timers
/// if due, then carry out the instruction.
pub open spec fn step(m: Machine, now: u64, random: u8) -> (Machine, Result<Step, Fault>) {
    dispatch(tick(fetched(m), now), decoded(instruction(m)), random)
}

} // verus!
