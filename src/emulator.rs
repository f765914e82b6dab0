use vstd::prelude::*;

use std::time::Instant;

use crate::keypad::{Keypad, NUM_KEYS};
use crate::machine::{
    self, Fault, Machine, Step, FLAG_REGISTER, FONT_SET_SIZE, NUM_VARIABLE_REGISTERS, RAM_SIZE,
    SCREEN_HEIGHT, SCREEN_WIDTH, START_ADDR, TICK_NANOS,
};
use crate::opcode::{decoded, Opcode};
use crate::sys::{clock_now, nanos_since, random_byte};

verus! {

/// The interpreter: memory, registers, call stack, timers, framebuffer and
/// keypad, with the two quirk settings fixed at construction.
pub struct Emulator {
    ram: [u8; RAM_SIZE],
    screen: [[bool; SCREEN_WIDTH]; SCREEN_HEIGHT],
    pc: u16,
    i: u16,
    stack: Vec<u16>,
    delay_timer: u8,
    sound_timer: u8,
    variable_registers: [u8; NUM_VARIABLE_REGISTERS],
    /// The keys the host reports held.
    pub keypad: Keypad,
    redraw_required: bool,
    use_y_on_shift: bool,
    use_x_on_jump: bool,
    clock_origin: Instant,
    last_timer_update: u64,
}

/// The rows of `s` as sequences.
pub open spec fn grid(s: [[bool; SCREEN_WIDTH]; SCREEN_HEIGHT]) -> Seq<Seq<bool>> {
    Seq::new(SCREEN_HEIGHT as nat, |r: int| s@[r]@)
}

impl View for Emulator {
    type V = Machine;

    closed spec fn view(&self) -> Machine {
        Machine {
            ram: self.ram@,
            screen: grid(self.screen),
            pc: self.pc,
            index: self.i,
            stack: self.stack@,
            delay: self.delay_timer,
            sound: self.sound_timer,
            regs: self.variable_registers@,
            keys: self.keypad@,
            redraw: self.redraw_required,
            shift_uses_y: self.use_y_on_shift,
            jump_uses_x: self.use_x_on_jump,
            last_tick: self.last_timer_update,
        }
    }
}

/// Whether the draw loop has already handled cell (`r`, `c`) of the sprite,
/// after `i` whole rows and `j` bits of the next one.
pub open spec fn drawn(m: Machine, x0: int, y0: int, n: int, i: int, j: int, r: int, c: int) -> bool {
    &&& machine::covers(m, x0, y0, n, r, c)
    &&& (r < y0 + i || (r == y0 + i && c < x0 + j))
}

proof fn lemma_drawn_next(m: Machine, x0: int, y0: int, n: int, i: int, j: int)
    requires
        0 <= i < n,
        0 <= j < 8,
        m.wf(),
    ensures
        forall|r: int, c: int|
            #[trigger] drawn(m, x0, y0, n, i, j + 1, r, c) == (drawn(m, x0, y0, n, i, j, r, c) || (r == y0
                + i && c == x0 + j && machine::sprite_bit(m.ram[(m.index + i) % 4096], j))),
{
}

proof fn lemma_drawn_row(m: Machine, x0: int, y0: int, n: int, i: int)
    ensures
        forall|r: int, c: int|
            #[trigger] drawn(m, x0, y0, n, i + 1, 0, r, c) == drawn(m, x0, y0, n, i, 8, r, c),
{
}

proof fn lemma_drawn_all(m: Machine, x0: int, y0: int, n: int)
    ensures
        forall|r: int, c: int|
            #[trigger] drawn(m, x0, y0, n, n, 0, r, c) == machine::covers(m, x0, y0, n, r, c),
{
}

impl Emulator {
    /// The machine's state is well formed.
    pub open spec fn wf(&self) -> bool {
        self@.wf()
    }

    /// A machine at start-up, with the given quirks: `use_y_on_shift` makes
    /// shifts copy register y first, `use_x_on_jump` makes the offset jump
    /// add register x instead of register 0. The timer clock starts now.
    pub fn new(use_y_on_shift: bool, use_x_on_jump: bool) -> (r: Self)
        ensures
            r.wf(),
            r@ == machine::initial(use_y_on_shift, use_x_on_jump, 0),
    {
        let font: [u8; FONT_SET_SIZE] = [
            0xF0, 0x90, 0x90, 0x90, 0xF0, // 0
            0x20, 0x60, 0x20, 0x20, 0x70, // 1
            0xF0, 0x10, 0xF0, 0x80, 0xF0, // 2
            0xF0, 0x10, 0xF0, 0x10, 0xF0, // 3
            0x90, 0x90, 0xF0, 0x10, 0x10, // 4
            0xF0, 0x80, 0xF0, 0x10, 0xF0, // 5
            0xF0, 0x80, 0xF0, 0x90, 0xF0, // 6
            0xF0, 0x10, 0x20, 0x40, 0x40, // 7
            0xF0, 0x90, 0xF0, 0x90, 0xF0, // 8
            0xF0, 0x90, 0xF0, 0x10, 0xF0, // 9
            0xF0, 0x90, 0xF0, 0x90, 0x90, // A
            0xE0, 0x90, 0xE0, 0x90, 0xE0, // B
            0xF0, 0x80, 0x80, 0x80, 0xF0, // C
            0xE0, 0x90, 0x90, 0x90, 0xE0, // D
            0xF0, 0x80, 0xF0, 0x80, 0xF0, // E
            0xF0, 0x80, 0xF0, 0x80, 0x80, // F
        ];
        assert(font@ == machine::font());
        let mut ram: [u8; RAM_SIZE] = [0; RAM_SIZE];
        let mut a: usize = 0;
        while a < FONT_SET_SIZE
            invariant
                a <= FONT_SET_SIZE,
                font@ == machine::font(),
                forall|j: int| 0 <= j < a ==> ram@[j] == machine::font()[j],
                forall|j: int| a <= j < RAM_SIZE ==> ram@[j] == 0,
            decreases FONT_SET_SIZE - a,
        {
            ram[a] = font[a];
            a += 1;
        }
        let r = Self {
            ram,
            screen: [[false; SCREEN_WIDTH]; SCREEN_HEIGHT],
            pc: START_ADDR,
            i: 0,
            stack: Vec::new(),
            delay_timer: 0,
            sound_timer: 0,
            variable_registers: [0; NUM_VARIABLE_REGISTERS],
            keypad: Keypad::new(),
            redraw_required: false,
            use_y_on_shift,
            use_x_on_jump,
            clock_origin: clock_now(),
            last_timer_update: 0,
        };
        let ghost init = machine::initial(use_y_on_shift, use_x_on_jump, 0);
        assert(r@.ram =~= init.ram);
        assert(r@.screen =~~= init.screen);
        assert(r@.regs =~= init.regs);
        assert(r@.stack =~= init.stack);
        r
    }

    /// Copies `program` into memory from the load address 0x200 on.
    pub fn load_program(&mut self, program: &[u8])
        requires
            old(self).wf(),
            program@.len() <= RAM_SIZE - START_ADDR,
        ensures
            final(self).wf(),
            final(self)@ == machine::loaded(old(self)@, program@),
    {
        let mut k: usize = 0;
        while k < program.len()
            invariant
                k <= program@.len() <= RAM_SIZE - START_ADDR,
                self@ == (Machine { ram: self@.ram, ..old(self)@ }),
                forall|a: int|
                    0 <= a < RAM_SIZE ==> #[trigger] self.ram@[a] == if START_ADDR <= a < START_ADDR + k {
                        program@[a - START_ADDR]
                    } else {
                        old(self)@.ram[a]
                    },
            decreases program@.len() - k,
        {
            self.ram[START_ADDR as usize + k] = program[k];
            k += 1;
        }
        assert(self@.ram =~= machine::loaded(old(self)@, program@).ram);
    }

    /// Whether the screen changed since the last call; asking clears the flag.
    pub fn needs_redraw(&mut self) -> (r: bool)
        ensures
            r == old(self)@.redraw,
            final(self)@ == (Machine { redraw: false, ..old(self)@ }),
    {
        if self.redraw_required {
            self.redraw_required = false;
            return true;
        }
        false
    }

    /// The sound timer; a tone plays while it is above zero.
    pub fn sound_timer(&self) -> (r: &u8)
        ensures
            *r == self@.sound,
    {
        &self.sound_timer
    }

    /// The framebuffer, by row and then column.
    pub fn screen(&self) -> (r: &[[bool; SCREEN_WIDTH]; SCREEN_HEIGHT])
        ensures
            grid(*r) == self@.screen,
    {
        &self.screen
    }

    /// Reads the byte at the program counter and moves the counter on by one,
    /// modulo the memory size.
    fn fetch_next_byte(&mut self) -> (byte: u8)
        ensures
            byte == old(self)@.ram[old(self).pc as int % 4096],
            final(self)@ == (Machine { pc: ((old(self)@.pc + 1) % 4096) as u16, ..old(self)@ }),
    {
        let byte: u8 = self.ram[(self.pc % 4096) as usize];
        self.pc = ((self.pc as u32 + 1) % 4096) as u16;
        byte
    }

    /// Reads the big-endian instruction word at the program counter.
    fn fetch(&mut self) -> (w: u16)
        ensures
            w == machine::instruction(old(self)@),
            final(self)@ == machine::fetched(old(self)@),
    {
        let hi: u8 = self.fetch_next_byte();
        let lo: u8 = self.fetch_next_byte();
        let w: u16 = ((hi as u16) << 8) | (lo as u16);
        assert(((hi as u16) << 8) | (lo as u16) == hi as u16 * 256 + lo as u16) by (bit_vector);
        let ghost p = old(self).pc as int;
        assert(((p + 1) % 4096) % 4096 == (p + 1) % 4096);
        assert(((p + 1) % 4096 + 1) % 4096 == (p + 2) % 4096);
        w
    }

    /// Fetches and decodes the instruction at the program counter.
    fn decode(&mut self) -> (op: Opcode)
        ensures
            op == decoded(machine::instruction(old(self)@)),
            op.fits(),
            final(self)@ == machine::fetched(old(self)@),
    {
        let instruction: u16 = self.fetch();
        Opcode::decode(instruction)
    }

    /// Decrements both timers, down to zero, once 1/60 second has passed
    /// since the last decrement.
    fn handle_timers(&mut self, now: u64)
        ensures
            final(self)@ == machine::tick(old(self)@, now),
    {
        if now >= self.last_timer_update && now - self.last_timer_update >= TICK_NANOS {
            self.delay_timer = self.delay_timer.saturating_sub(1);
            self.sound_timer = self.sound_timer.saturating_sub(1);
            self.last_timer_update = now;
        }
    }

    /// Turns every pixel off.
    fn clear_screen(&mut self)
        ensures
            final(self)@ == machine::clear_screen(old(self)@),
    {
        self.screen = [[false; SCREEN_WIDTH]; SCREEN_HEIGHT];
        self.redraw_required = true;
        assert(self@.screen =~~= machine::blank_screen());
    }

    /// Draws the `sprite_height` rows of sprite read from the index register,
    /// corner at (register `x_reg` mod 64, register `y_reg` mod 32), most
    /// significant bit leftmost. A set bit flips its pixel; pixels past the
    /// right or bottom edge are skipped. The flag register ends 1 if a lit
    /// pixel went dark, else 0.
    fn display(&mut self, x_reg: u8, y_reg: u8, sprite_height: u8)
        requires
            old(self).wf(),
            x_reg < 16,
            y_reg < 16,
            sprite_height < 16,
        ensures
            final(self)@ == machine::draw(old(self)@, x_reg as int, y_reg as int, sprite_height as int),
    {
        let x_coord: usize = self.variable_registers[x_reg as usize] as usize % SCREEN_WIDTH;
        let y_coord: usize = self.variable_registers[y_reg as usize] as usize % SCREEN_HEIGHT;
        let ghost m0 = self@;
        let ghost x0 = x_coord as int;
        let ghost y0 = y_coord as int;
        let ghost n = sprite_height as int;
        let mut collided = false;
        let mut i: u8 = 0;
        while i < sprite_height
            invariant
                m0 == old(self)@,
                m0.wf(),
                x0 == machine::corner_x(m0, x_reg as int),
                y0 == machine::corner_y(m0, y_reg as int),
                x0 < SCREEN_WIDTH,
                y0 < SCREEN_HEIGHT,
                x_coord == x0,
                y_coord == y0,
                n == sprite_height,
                i <= sprite_height,
                self@ == (Machine { screen: self@.screen, ..m0 }),
                self@.screen.len() == SCREEN_HEIGHT,
                forall|r: int| 0 <= r < SCREEN_HEIGHT ==> #[trigger] self@.screen[r].len() == SCREEN_WIDTH,
                forall|r: int, c: int|
                    0 <= r < SCREEN_HEIGHT && 0 <= c < SCREEN_WIDTH ==> #[trigger] self@.screen[r][c] == (
                    m0.screen[r][c] != drawn(m0, x0, y0, n, i as int, 0, r, c)),
                collided == (exists|r: int, c: int|
                    0 <= r < SCREEN_HEIGHT && 0 <= c < SCREEN_WIDTH && #[trigger] drawn(
                        m0,
                        x0,
                        y0,
                        n,
                        i as int,
                        0,
                        r,
                        c,
                    ) && m0.screen[r][c]),
            decreases sprite_height - i,
        {
            let sprite_row: u8 = self.ram[(self.i as usize + i as usize) % RAM_SIZE];
            let mut j: u8 = 0;
            while j < 8
                invariant
                    m0 == old(self)@,
                    m0.wf(),
                    x0 < SCREEN_WIDTH,
                    y0 < SCREEN_HEIGHT,
                    x_coord == x0,
                    y_coord == y0,
                    n == sprite_height,
                    i < sprite_height,
                    j <= 8,
                    sprite_row == m0.ram[(m0.index + i) % 4096],
                    self@ == (Machine { screen: self@.screen, ..m0 }),
                    self@.screen.len() == SCREEN_HEIGHT,
                    forall|r: int| 0 <= r < SCREEN_HEIGHT ==> #[trigger] self@.screen[r].len() == SCREEN_WIDTH,
                    forall|r: int, c: int|
                        0 <= r < SCREEN_HEIGHT && 0 <= c < SCREEN_WIDTH ==> #[trigger] self@.screen[r][c] == (
                        m0.screen[r][c] != drawn(m0, x0, y0, n, i as int, j as int, r, c)),
                    collided == (exists|r: int, c: int|
                        0 <= r < SCREEN_HEIGHT && 0 <= c < SCREEN_WIDTH && #[trigger] drawn(
                            m0,
                            x0,
                            y0,
                            n,
                            i as int,
                            j as int,
                            r,
                            c,
                        ) && m0.screen[r][c]),
                decreases 8 - j,
            {
                let x: usize = x_coord + j as usize;
                let y: usize = y_coord + i as usize;
                let ghost before = self@.screen;
                let ghost was_collided = collided;
                assert(x < SCREEN_WIDTH && y < SCREEN_HEIGHT ==> before[y as int][x as int] == m0.screen[y as int][x as int]);
                if x < SCREEN_WIDTH && y < SCREEN_HEIGHT {
                    if (sprite_row >> (7 - j)) & 1 == 1 {
                        if self.screen[y][x] {
                            self.screen[y][x] = false;
                            collided = true;
                        } else {
                            self.screen[y][x] = true;
                        }
                    }
                }
                proof {
                    lemma_drawn_next(m0, x0, y0, n, i as int, j as int);
                    assert forall|r: int, c: int|
                        0 <= r < SCREEN_HEIGHT && 0 <= c < SCREEN_WIDTH implies #[trigger] self@.screen[r][c] == (
                        m0.screen[r][c] != drawn(m0, x0, y0, n, i as int, j + 1, r, c)) by {
                        if r == y && c == x {
                            assert(before[r][c] == m0.screen[r][c]);
                        } else {
                            assert(self@.screen[r][c] == before[r][c]);
                        }
                    }
                    if x < SCREEN_WIDTH && y < SCREEN_HEIGHT && machine::covers(m0, x0, y0, n, y as int, x as int)
                        && m0.screen[y as int][x as int] {
                        assert(drawn(m0, x0, y0, n, i as int, j + 1, y as int, x as int));
                    }
                    let ghost new_hit = x < SCREEN_WIDTH && y < SCREEN_HEIGHT && machine::covers(
                        m0,
                        x0,
                        y0,
                        n,
                        y as int,
                        x as int,
                    ) && m0.screen[y as int][x as int];
                    assert(collided == (was_collided || new_hit));
                    if !collided {
                        assert forall|r: int, c: int|
                            0 <= r < SCREEN_HEIGHT && 0 <= c < SCREEN_WIDTH implies !(#[trigger] drawn(
                            m0,
                            x0,
                            y0,
                            n,
                            i as int,
                            j + 1,
                            r,
                            c,
                        ) && m0.screen[r][c]) by {
                            if drawn(m0, x0, y0, n, i as int, j + 1, r, c) && !drawn(m0, x0, y0, n, i as int, j as int, r, c) {
                                assert(r == y && c == x);
                            }
                        }
                    }
                    if was_collided {
                        let (r, c) = choose|r: int, c: int|
                            0 <= r < SCREEN_HEIGHT && 0 <= c < SCREEN_WIDTH && #[trigger] drawn(
                                m0,
                                x0,
                                y0,
                                n,
                                i as int,
                                j as int,
                                r,
                                c,
                            ) && m0.screen[r][c];
                        assert(drawn(m0, x0, y0, n, i as int, j + 1, r, c));
                    }
                }
                j += 1;
            }
            proof {
                lemma_drawn_row(m0, x0, y0, n, i as int);
                if collided {
                    let (r, c) = choose|r: int, c: int|
                        0 <= r < SCREEN_HEIGHT && 0 <= c < SCREEN_WIDTH && #[trigger] drawn(m0, x0, y0, n, i as int, 8, r, c)
                            && m0.screen[r][c];
                    assert(drawn(m0, x0, y0, n, i + 1, 0, r, c));
                } else {
                    assert forall|r: int, c: int|
                        0 <= r < SCREEN_HEIGHT && 0 <= c < SCREEN_WIDTH implies !(#[trigger] drawn(
                        m0,
                        x0,
                        y0,
                        n,
                        i + 1,
                        0,
                        r,
                        c,
                    ) && m0.screen[r][c]) by {
                        assert(drawn(m0, x0, y0, n, i + 1, 0, r, c) == drawn(m0, x0, y0, n, i as int, 8, r, c));
                    }
                }
            }
            i += 1;
        }
        proof {
            lemma_drawn_all(m0, x0, y0, n);
            let ghost xr = x_reg as int;
            let ghost yr = y_reg as int;
            if collided {
                let (r, c) = choose|r: int, c: int|
                    0 <= r < SCREEN_HEIGHT && 0 <= c < SCREEN_WIDTH && #[trigger] drawn(m0, x0, y0, n, n, 0, r, c)
                        && m0.screen[r][c];
                assert(machine::covers(m0, machine::corner_x(m0, xr), machine::corner_y(m0, yr), n, r, c));
            }
            if machine::collides(m0, xr, yr, n) {
                let (r, c) = choose|r: int, c: int|
                    0 <= r < SCREEN_HEIGHT && 0 <= c < SCREEN_WIDTH && #[trigger] machine::covers(
                        m0,
                        machine::corner_x(m0, xr),
                        machine::corner_y(m0, yr),
                        n,
                        r,
                        c,
                    ) && m0.screen[r][c];
                assert(drawn(m0, x0, y0, n, n, 0, r, c));
            }
            assert(collided == machine::collides(m0, xr, yr, n));
        }
        self.variable_registers[FLAG_REGISTER] = if collided { 1 } else { 0 };
        self.redraw_required = true;
        let ghost target = machine::draw(m0, x_reg as int, y_reg as int, n);
        assert(self@.screen =~~= target.screen);
        assert(self@.regs =~= target.regs);
    }

    /// Continues at `memory_location`.
    fn jump(&mut self, memory_location: u16)
        ensures
            final(self)@ == machine::jump(old(self)@, memory_location),
    {
        self.pc = memory_location;
    }

    /// Pushes the program counter, which already points past the call, and
    /// continues at `memory_location`.
    fn subroutine_call(&mut self, memory_location: u16)
        ensures
            final(self)@ == machine::subroutine_call(old(self)@, memory_location),
    {
        self.stack.push(self.pc);
        self.pc = memory_location;
    }

    /// Pops the return address into the program counter; an empty stack is
    /// a fault and changes nothing.
    fn subroutine_exit(&mut self) -> (r: Result<(), Fault>)
        ensures
            old(self)@.stack.len() == 0 ==> r == Err::<(), Fault>(Fault::StackUnderflow) && final(self)@ == old(self)@,
            old(self)@.stack.len() > 0 ==> r is Ok && final(self)@ == machine::subroutine_exit(old(self)@),
    {
        match self.stack.pop() {
            Some(exit_location) => {
                self.pc = exit_location;
                Ok(())
            },
            None => Err(Fault::StackUnderflow),
        }
    }

    /// Sets register `reg` to `value`.
    fn set_register_to_val(&mut self, reg: u8, value: u8)
        requires
            reg < 16,
        ensures
            final(self)@ == machine::with_reg(old(self)@, reg as int, value),
    {
        self.variable_registers[reg as usize] = value;
    }

    /// Adds `value` to register `reg`, wrapping; the flag register is untouched.
    fn add_val_to_register(&mut self, reg: u8, value: u8)
        requires
            reg < 16,
        ensures
            final(self)@ == machine::add_val(old(self)@, reg as int, value),
    {
        let i: usize = reg as usize;
        self.variable_registers[i] = self.variable_registers[i].wrapping_add(value);
    }

    /// Loads a 12-bit address into the index register.
    fn set_index_register(&mut self, value: u16)
        ensures
            final(self)@ == (Machine { index: value, ..old(self)@ }),
    {
        self.i = value;
    }

    /// Skips the next instruction when register `reg_num` equals `value`.
    fn skip_if_equal(&mut self, reg_num: u8, value: u8)
        requires
            reg_num < 16,
            old(self).pc < 4096,
        ensures
            final(self)@ == machine::skip_if(old(self)@, old(self)@.regs[reg_num as int] == value),
    {
        if self.variable_registers[reg_num as usize] == value {
            self.pc += 2;
        }
    }

    /// Skips the next instruction when register `reg_num` differs from `value`.
    fn skip_if_not_equal(&mut self, reg_num: u8, value: u8)
        requires
            reg_num < 16,
            old(self).pc < 4096,
        ensures
            final(self)@ == machine::skip_if(old(self)@, old(self)@.regs[reg_num as int] != value),
    {
        if self.variable_registers[reg_num as usize] != value {
            self.pc += 2;
        }
    }

    /// Skips the next instruction when registers `x_reg` and `y_reg` are equal.
    fn skip_if_regs_equal(&mut self, x_reg: u8, y_reg: u8)
        requires
            x_reg < 16,
            y_reg < 16,
            old(self).pc < 4096,
        ensures
            final(self)@ == machine::skip_if(
                old(self)@,
                old(self)@.regs[x_reg as int] == old(self)@.regs[y_reg as int],
            ),
    {
        if self.variable_registers[x_reg as usize] == self.variable_registers[y_reg as usize] {
            self.pc += 2;
        }
    }

    /// Skips the next instruction when registers `x_reg` and `y_reg` differ.
    fn skip_if_regs_not_equal(&mut self, x_reg: u8, y_reg: u8)
        requires
            x_reg < 16,
            y_reg < 16,
            old(self).pc < 4096,
        ensures
            final(self)@ == machine::skip_if(
                old(self)@,
                old(self)@.regs[x_reg as int] != old(self)@.regs[y_reg as int],
            ),
    {
        if self.variable_registers[x_reg as usize] != self.variable_registers[y_reg as usize] {
            self.pc += 2;
        }
    }

    /// Copies register `y_reg` into register `x_reg`.
    fn set_register_to_register(&mut self, x_reg: u8, y_reg: u8)
        requires
            x_reg < 16,
            y_reg < 16,
        ensures
            final(self)@ == machine::with_reg(old(self)@, x_reg as int, old(self)@.regs[y_reg as int]),
    {
        self.variable_registers[x_reg as usize] = self.variable_registers[y_reg as usize];
    }

    /// Register `x_reg` becomes its bitwise OR with register `y_reg`.
    fn bitwise_or(&mut self, x_reg: u8, y_reg: u8)
        requires
            x_reg < 16,
            y_reg < 16,
        ensures
            final(self)@ == machine::with_reg(
                old(self)@,
                x_reg as int,
                old(self)@.regs[x_reg as int] | old(self)@.regs[y_reg as int],
            ),
    {
        self.variable_registers[x_reg as usize] |= self.variable_registers[y_reg as usize];
    }

    /// Register `x_reg` becomes its bitwise AND with register `y_reg`.
    fn bitwise_and(&mut self, x_reg: u8, y_reg: u8)
        requires
            x_reg < 16,
            y_reg < 16,
        ensures
            final(self)@ == machine::with_reg(
                old(self)@,
                x_reg as int,
                old(self)@.regs[x_reg as int] & old(self)@.regs[y_reg as int],
            ),
    {
        self.variable_registers[x_reg as usize] &= self.variable_registers[y_reg as usize];
    }

    /// Register `x_reg` becomes its bitwise XOR with register `y_reg`.
    fn bitwise_xor(&mut self, x_reg: u8, y_reg: u8)
        requires
            x_reg < 16,
            y_reg < 16,
        ensures
            final(self)@ == machine::with_reg(
                old(self)@,
                x_reg as int,
                old(self)@.regs[x_reg as int] ^ old(self)@.regs[y_reg as int],
            ),
    {
        self.variable_registers[x_reg as usize] ^= self.variable_registers[y_reg as usize];
    }

    /// Adds register `y_reg` into register `x_reg`, wrapping; the flag
    /// register then holds 1 on a carry, else 0.
    fn add_register_to_register(&mut self, x_reg: u8, y_reg: u8)
        requires
            x_reg < 16,
            y_reg < 16,
        ensures
            final(self)@ == machine::add_regs(old(self)@, x_reg as int, y_reg as int),
    {
        let a: u8 = self.variable_registers[x_reg as usize];
        let b: u8 = self.variable_registers[y_reg as usize];
        let overflow: bool = a as u16 + b as u16 > 255;
        self.variable_registers[x_reg as usize] = a.wrapping_add(b);
        self.variable_registers[FLAG_REGISTER] = if overflow { 1 } else { 0 };
    }

    /// Register `x_reg` minus register `y_reg` into register `x_reg`,
    /// wrapping; the flag register then holds 0 on a borrow, else 1.
    fn subtract_yregister_from_xregister(&mut self, x_reg: u8, y_reg: u8)
        requires
            x_reg < 16,
            y_reg < 16,
        ensures
            final(self)@ == machine::sub_into(
                old(self)@,
                x_reg as int,
                old(self)@.regs[x_reg as int],
                old(self)@.regs[y_reg as int],
            ),
    {
        let a: u8 = self.variable_registers[x_reg as usize];
        let b: u8 = self.variable_registers[y_reg as usize];
        self.variable_registers[x_reg as usize] = a.wrapping_sub(b);
        self.variable_registers[FLAG_REGISTER] = if a < b { 0 } else { 1 };
    }

    /// Register `y_reg` minus register `x_reg` into register `x_reg`,
    /// wrapping; the flag register then holds 0 on a borrow, else 1.
    fn subtract_xregister_from_yregister(&mut self, x_reg: u8, y_reg: u8)
        requires
            x_reg < 16,
            y_reg < 16,
        ensures
            final(self)@ == machine::sub_into(
                old(self)@,
                x_reg as int,
                old(self)@.regs[y_reg as int],
                old(self)@.regs[x_reg as int],
            ),
    {
        let a: u8 = self.variable_registers[y_reg as usize];
        let b: u8 = self.variable_registers[x_reg as usize];
        self.variable_registers[x_reg as usize] = a.wrapping_sub(b);
        self.variable_registers[FLAG_REGISTER] = if a < b { 0 } else { 1 };
    }

    /// Shifts register `x_reg` right by one, after copying register `y_reg`
    /// into it under the shift quirk; the bit shifted out goes to the flag
    /// register first.
    fn shift_to_right(&mut self, x_reg: u8, y_reg: u8)
        requires
            x_reg < 16,
            y_reg < 16,
        ensures
            final(self)@ == machine::shift_right(old(self)@, x_reg as int, y_reg as int),
    {
        if self.use_y_on_shift {
            self.variable_registers[x_reg as usize] = self.variable_registers[y_reg as usize];
        }
        let s: u8 = self.variable_registers[x_reg as usize];
        assert(s & 1 == s % 2) by (bit_vector);
        self.variable_registers[FLAG_REGISTER] = s & 1;
        let t: u8 = self.variable_registers[x_reg as usize];
        assert(t >> 1 == t / 2) by (bit_vector);
        self.variable_registers[x_reg as usize] = t >> 1;
        assert(self@.regs =~= machine::shift_right(old(self)@, x_reg as int, y_reg as int).regs);
    }

    /// Shifts register `x_reg` left by one, after copying register `y_reg`
    /// into it under the shift quirk; the bit shifted out goes to the flag
    /// register first.
    fn shift_to_left(&mut self, x_reg: u8, y_reg: u8)
        requires
            x_reg < 16,
            y_reg < 16,
        ensures
            final(self)@ == machine::shift_left(old(self)@, x_reg as int, y_reg as int),
    {
        if self.use_y_on_shift {
            self.variable_registers[x_reg as usize] = self.variable_registers[y_reg as usize];
        }
        let s: u8 = self.variable_registers[x_reg as usize];
        assert((s >> 7) & 1 == s / 128) by (bit_vector);
        self.variable_registers[FLAG_REGISTER] = (s >> 7) & 1;
        let t: u8 = self.variable_registers[x_reg as usize];
        assert(t << 1 == (t * 2) % 256) by (bit_vector);
        self.variable_registers[x_reg as usize] = t << 1;
        assert(self@.regs =~= machine::shift_left(old(self)@, x_reg as int, y_reg as int).regs);
    }

    /// Continues at register 0 plus `offset`, or register `x_reg` plus
    /// `offset` under the jump quirk.
    fn jump_with_offset(&mut self, x_reg: u8, offset: u16)
        requires
            x_reg < 16,
            offset < 0x1000,
        ensures
            final(self)@ == machine::jump_with_offset(old(self)@, x_reg as int, offset),
    {
        self.pc = if self.use_x_on_jump {
            self.variable_registers[x_reg as usize] as u16 + offset
        } else {
            self.variable_registers[0] as u16 + offset
        };
    }

    /// Register `x_reg` becomes `byte` masked with `value`.
    fn random(&mut self, x_reg: u8, value: u8, byte: u8)
        requires
            x_reg < 16,
        ensures
            final(self)@ == machine::with_reg(old(self)@, x_reg as int, byte & value),
    {
        self.variable_registers[x_reg as usize] = byte & value;
    }

    /// Whether the key named by register `reg` exists and is held.
    fn key_in_register_held(&self, reg: u8) -> (r: bool)
        requires
            reg < 16,
        ensures
            r == machine::key_held(self@, self@.regs[reg as int]),
    {
        let k: u8 = self.variable_registers[reg as usize];
        (k as usize) < NUM_KEYS && self.keypad.get_keys()[k as usize]
    }

    /// Skips the next instruction when the key named by register `reg` is held.
    fn skip_if_key_pressed(&mut self, reg: u8)
        requires
            reg < 16,
            old(self).pc < 4096,
        ensures
            final(self)@ == machine::skip_if(
                old(self)@,
                machine::key_held(old(self)@, old(self)@.regs[reg as int]),
            ),
    {
        if self.key_in_register_held(reg) {
            self.pc += 2;
        }
    }

    /// Skips the next instruction when the key named by register `reg` is
    /// not held.
    fn skip_if_key_not_pressed(&mut self, reg: u8)
        requires
            reg < 16,
            old(self).pc < 4096,
        ensures
            final(self)@ == machine::skip_if(
                old(self)@,
                !machine::key_held(old(self)@, old(self)@.regs[reg as int]),
            ),
    {
        if !self.key_in_register_held(reg) {
            self.pc += 2;
        }
    }

    /// Copies the delay timer into register `reg`.
    fn set_register_to_delay_timer(&mut self, reg: u8)
        requires
            reg < 16,
        ensures
            final(self)@ == machine::with_reg(old(self)@, reg as int, old(self)@.delay),
    {
        self.variable_registers[reg as usize] = self.delay_timer;
    }

    /// Copies register `reg` into the delay timer.
    fn set_delay_timer_to_register_value(&mut self, reg: u8)
        requires
            reg < 16,
        ensures
            final(self)@ == (Machine { delay: old(self)@.regs[reg as int], ..old(self)@ }),
    {
        self.delay_timer = self.variable_registers[reg as usize];
    }

    /// Copies register `reg` into the sound timer.
    fn set_sound_timer_to_register_value(&mut self, reg: u8)
        requires
            reg < 16,
        ensures
            final(self)@ == (Machine { sound: old(self)@.regs[reg as int], ..old(self)@ }),
    {
        self.sound_timer = self.variable_registers[reg as usize];
    }

    /// Adds register `reg` to the index register. A sum past 0xFFF wraps
    /// into 12 bits and sets the flag register to 1; otherwise the flag
    /// register is left alone.
    fn add_register_to_index_register(&mut self, reg: u8)
        requires
            old(self).wf(),
            reg < 16,
        ensures
            final(self)@ == machine::add_to_index(old(self)@, reg as int),
    {
        let result: u16 = self.i + self.variable_registers[reg as usize] as u16;
        if result > 0xFFF {
            self.variable_registers[FLAG_REGISTER] = 1;
            self.i = result - 0x1000;
        } else {
            self.i = result;
        }
    }

    /// Stores the lowest held key's index in register `reg`; with no key
    /// held, steps the program counter back so this instruction runs again.
    fn block_and_wait_for_key(&mut self, reg: u8)
        requires
            old(self).wf(),
            reg < 16,
            old(self).pc < 4096,
        ensures
            final(self)@ == machine::wait_for_key(old(self)@, reg as int),
    {
        let mut k: usize = 0;
        while k < NUM_KEYS
            invariant
                k <= NUM_KEYS,
                reg < 16,
                old(self).pc < 4096,
                self@ == old(self)@,
                self@.keys.len() == 16,
                forall|j: int| 0 <= j < k ==> !self@.keys[j],
            decreases NUM_KEYS - k,
        {
            if self.keypad.get_keys()[k] {
                proof {
                    let keys = self@.keys;
                    assert(machine::lowest_held(keys, k as int));
                    let c = choose|c: int| machine::lowest_held(keys, c);
                    assert(c == k);
                }
                self.variable_registers[reg as usize] = k as u8;
                return;
            }
            k += 1;
        }
        self.pc = (self.pc + 4094) % 4096;
    }


    /// Executes one instruction, reading the clock and drawing the random
    /// byte from the host: whatever they give, the result is one step of the
    /// machine at some clock reading with some random byte.
    pub fn execute(&mut self) -> (r: Result<Step, Fault>)
        requires
            old(self).wf(),
        ensures
            final(self).wf(),
            exists|now: u64, random: u8| machine::step(old(self)@, now, random) == (final(self)@, r),
    {
        let now: u64 = nanos_since(&self.clock_origin);
        let byte: u8 = random_byte();
        self.execute_with(now, byte)
    }

    /// Executes one instruction at clock reading `now` (nanoseconds since the
    /// machine was made), with `random` as the byte the random instruction
    /// draws: fetch, decode, tick the timers if due, then carry out the
    /// instruction. A return with an empty call stack is a fault; a word that
    /// names no instruction is reported as unknown and skipped.
    pub fn execute_with(&mut self, now: u64, random: u8) -> (r: Result<Step, Fault>)
        requires
            old(self).wf(),
        ensures
            final(self).wf(),
            (final(self)@, r) == machine::step(old(self)@, now, random),
    {
        let op: Opcode = self.decode();
        self.handle_timers(now);
        let done: Result<Step, Fault> = Ok(Step::Done);
        let unknown: Result<Step, Fault> = Ok(Step::Unknown(op));
        let r = match op.category {
            0x0 => match op.nnn {
                0x0E0 => {
                    self.clear_screen();
                    done
                },
                0x0EE => match self.subroutine_exit() {
                    Ok(()) => done,
                    Err(fault) => Err(fault),
                },
                _ => unknown,
            },
            0x1 => {
                self.jump(op.nnn);
                done
            },
            0x2 => {
                self.subroutine_call(op.nnn);
                done
            },
            0x3 => {
                self.skip_if_equal(op.x, op.nn);
                done
            },
            0x4 => {
                self.skip_if_not_equal(op.x, op.nn);
                done
            },
            0x5 => match op.n {
                0x0 => {
                    self.skip_if_regs_equal(op.x, op.y);
                    done
                },
                _ => unknown,
            },
            0x6 => {
                self.set_register_to_val(op.x, op.nn);
                done
            },
            0x7 => {
                self.add_val_to_register(op.x, op.nn);
                done
            },
            0x8 => match op.n {
                0x0 => {
                    self.set_register_to_register(op.x, op.y);
                    done
                },
                0x1 => {
                    self.bitwise_or(op.x, op.y);
                    done
                },
                0x2 => {
                    self.bitwise_and(op.x, op.y);
                    done
                },
                0x3 => {
                    self.bitwise_xor(op.x, op.y);
                    done
                },
                0x4 => {
                    self.add_register_to_register(op.x, op.y);
                    done
                },
                0x5 => {
                    self.subtract_yregister_from_xregister(op.x, op.y);
                    done
                },
                0x6 => {
                    self.shift_to_right(op.x, op.y);
                    done
                },
                0x7 => {
                    self.subtract_xregister_from_yregister(op.x, op.y);
                    done
                },
                0xE => {
                    self.shift_to_left(op.x, op.y);
                    done
                },
                _ => unknown,
            },
            0x9 => match op.n {
                0x0 => {
                    self.skip_if_regs_not_equal(op.x, op.y);
                    done
                },
                _ => unknown,
            },
            0xA => {
                self.set_index_register(op.nnn);
                done
            },
            0xB => {
                self.jump_with_offset(op.x, op.nnn);
                done
            },
            0xC => {
                self.random(op.x, op.nn, random);
                done
            },
            0xD => {
                self.display(op.x, op.y, op.n);
                done
            },
            0xE => match op.nn {
                0x9E => {
                    self.skip_if_key_pressed(op.x);
                    done
                },
                0xA1 => {
                    self.skip_if_key_not_pressed(op.x);
                    done
                },
                _ => unknown,
            },
            _ => match op.nn {
                0x07 => {
                    self.set_register_to_delay_timer(op.x);
                    done
                },
                0x0A => {
                    self.block_and_wait_for_key(op.x);
                    done
                },
                0x15 => {
                    self.set_delay_timer_to_register_value(op.x);
                    done
                },
                0x18 => {
                    self.set_sound_timer_to_register_value(op.x);
                    done
                },
                0x1E => {
                    self.add_register_to_index_register(op.x);
                    done
                },
                _ => unknown,
            },
        };
        r
    }


    /// The value of general register `reg`.
    pub fn register(&self, reg: u8) -> (r: u8)
        requires
            reg < 16,
        ensures
            r == self@.regs[reg as int],
    {
        self.variable_registers[reg as usize]
    }

    /// The program counter: the address of the next instruction.
    pub fn program_counter(&self) -> (r: u16)
        ensures
            r == self@.pc,
    {
        self.pc
    }

    /// The index register.
    pub fn index_register(&self) -> (r: u16)
        ensures
            r == self@.index,
    {
        self.i
    }

    /// The delay timer.
    pub fn delay_timer(&self) -> (r: u8)
        ensures
            r == self@.delay,
    {
        self.delay_timer
    }

    /// How many return addresses the call stack holds.
    pub fn stack_depth(&self) -> (r: usize)
        ensures
            r == self@.stack.len(),
    {
        self.stack.len()
    }

}

} // verus!
