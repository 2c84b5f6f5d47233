use crate::display::{spec_draw, Display};
use crate::font::{font_seq, font_set};
use crate::keypad::KeyPad;
use vstd::prelude::*;

verus! {

/// The machine: memory, register file, call stack, timers, the frame
/// buffer, and the key-pad state, driven one fetch-decode-execute cycle at
/// a time.
pub struct Cpu {
    /// The 16-bit instruction word fetched most recently.
    pub opcode: u16,
    /// 4096 bytes of memory: font table at the bottom, program from 0x200.
    pub v_ram: Vec<u8>,
    /// The sixteen 8-bit general registers V0 through VF.
    pub v: Vec<u8>,
    /// The 16-bit index register.
    pub i: usize,
    /// The program counter.
    pub pc: usize,
    /// The sixteen-slot call stack.
    pub stack: Vec<u16>,
    /// The stack pointer: number of slots in use, 0 through 16.
    pub sp: usize,
    /// Counts down toward zero once per tick while nonzero.
    pub delay_timer: u8,
    /// Tracked but never consumed: no sound output is produced.
    pub sound_timer: u8,
    /// The frame buffer.
    pub screen: Display,
    /// The key state the key opcodes read.
    pub key_pad: KeyPad,
}

/// The `x` register selector: the high nibble of an opcode's low byte.
pub open spec fn spec_x(op: u16) -> int {
    ((op >> 8) & 0xF) as int
}

/// The `y` register selector: the low nibble of an opcode's high byte.
pub open spec fn spec_y(op: u16) -> int {
    ((op >> 4) & 0xF) as int
}

/// The `n` immediate: an opcode's low nibble.
pub open spec fn spec_n(op: u16) -> int {
    (op & 0xF) as int
}

/// The `nn` immediate: an opcode's low byte.
pub open spec fn spec_nn(op: u16) -> u8 {
    (op & 0xFF) as u8
}

/// The `nnn` immediate: an opcode's low 12 bits.
pub open spec fn spec_nnn(op: u16) -> int {
    (op & 0xFFF) as int
}

/// 8-bit addition with wraparound modulo 256.
pub open spec fn wrap_add(a: u8, b: u8) -> u8 {
    if a + b > 255 {
        (a + b - 256) as u8
    } else {
        (a + b) as u8
    }
}

/// 8-bit subtraction with wraparound modulo 256.
pub open spec fn wrap_sub(a: u8, b: u8) -> u8 {
    if a - b < 0 {
        (a - b + 256) as u8
    } else {
        (a - b) as u8
    }
}

/// One tick's timer step: count down toward zero, never below it.
pub open spec fn dec_timer(t: u8) -> u8 {
    if t > 0 {
        (t - 1) as u8
    } else {
        0
    }
}

/// The timer after `n` ticks of counting down.
pub open spec fn iter_dec(t: u8, n: nat) -> u8
    decreases n,
{
    if n == 0 {
        t
    } else {
        dec_timer(iter_dec(t, (n - 1) as nat))
    }
}

/// The lowest held key at or above index `k`, or -1 when none is held.
pub open spec fn first_key_from(keys: Seq<bool>, k: int) -> int
    decreases 16 - k,
{
    if k < 0 || k >= 16 {
        -1
    } else if keys[k] {
        k
    } else {
        first_key_from(keys, k + 1)
    }
}

/// The big-endian instruction word at the program counter.
pub open spec fn fetched(c: Cpu) -> u16 {
    (c.v_ram@[c.pc as int] * 256 + c.v_ram@[c.pc as int + 1]) as u16
}

impl Cpu {
    /// Structural soundness: every array has its fixed size, the stack
    /// pointer stays within the sixteen slots, stacked return addresses
    /// point at fetchable instructions, and the program counter never
    /// exceeds the largest value an opcode can set (a 12-bit jump target
    /// plus an 8-bit register offset).
    pub open spec fn wf(self) -> bool {
        &&& self.v_ram@.len() == 4096
        &&& self.v@.len() == 16
        &&& self.stack@.len() == 16
        &&& self.sp <= 16
        &&& self.pc <= 0xFFF + 0xFF
        &&& forall|k: int| 0 <= k < 16 ==> self.stack@[k] <= 4094
        &&& self.screen.wf()
        &&& self.key_pad.wf()
    }
}

/// A zero-filled byte vector of the given length.
fn zero_bytes(n: usize) -> (r: Vec<u8>)
    ensures
        r@.len() == n,
        forall|k: int| 0 <= k < n ==> r@[k] == 0,
{
    let mut g: Vec<u8> = Vec::new();
    let mut t: usize = 0;
    while t < n
        invariant
            t <= n,
            g@.len() == t,
            forall|k: int| 0 <= k < t ==> g@[k] == 0,
        decreases n - t,
    {
        g.push(0);
        t = t + 1;
    }
    g
}

/// A zero-filled sixteen-slot call stack.
fn zero_stack() -> (r: Vec<u16>)
    ensures
        r@.len() == 16,
        forall|k: int| 0 <= k < 16 ==> r@[k] == 0,
{
    let mut g: Vec<u16> = Vec::new();
    let mut t: usize = 0;
    while t < 16
        invariant
            t <= 16,
            g@.len() == t,
            forall|k: int| 0 <= k < t ==> g@[k] == 0,
        decreases 16 - t,
    {
        g.push(0);
        t = t + 1;
    }
    g
}

impl Cpu {
    /// A machine at power-on: the font table in the bottom eighty bytes of
    /// otherwise zeroed memory, all registers and timers clear, the program
    /// counter and index register at the conventional entry address 0x200,
    /// a black screen, and no key held.
    pub fn new() -> (r: Cpu)
        ensures
            r.wf(),
            r.opcode == 0,
            r.pc == 0x200,
            r.i == 0x200,
            r.sp == 0,
            r.delay_timer == 0,
            r.sound_timer == 0,
            forall|k: int| 0 <= k < 16 ==> r.v@[k] == 0,
            forall|k: int| 0 <= k < 16 ==> r.stack@[k] == 0,
            forall|k: int| 0 <= k < 80 ==> r.v_ram@[k] == font_seq()[k],
            forall|k: int| 80 <= k < 4096 ==> r.v_ram@[k] == 0,
            forall|t: int| 0 <= t < 2048 ==> r.screen.gfx@[t] == 0,
            r.screen.draw_flag,
            forall|k: int| 0 <= k < 16 ==> !r.key_pad.keys@[k],
    {
        let font = font_set();
        let mut v_ram = zero_bytes(4096);
        let mut k: usize = 0;
        while k < 80
            invariant
                k <= 80,
                font@ == font_seq(),
                v_ram@.len() == 4096,
                forall|j: int| 0 <= j < k ==> v_ram@[j] == font_seq()[j],
                forall|j: int| k <= j < 4096 ==> v_ram@[j] == 0,
        decreases 80 - k,
        {
            v_ram.set(k, font[k]);
            k = k + 1;
        }
        Cpu {
            opcode: 0,
            v_ram,
            v: zero_bytes(16),
            i: 0x200,
            pc: 0x200,
            stack: zero_stack(),
            sp: 0,
            delay_timer: 0,
            sound_timer: 0,
            screen: Display::new(),
            key_pad: KeyPad::new(),
        }
    }

    /// Copies a program image into memory starting at 0x200. Bytes whose
    /// destination would lie beyond the 4096-byte capacity are silently
    /// dropped, so at most 3584 bytes are taken; everything else in the
    /// machine is untouched.
    pub fn load(&mut self, data: &[u8])
        requires
            old(self).wf(),
        ensures
            final(self).wf(),
            forall|k: int|
                0 <= k < data@.len() && k < 3584 ==> final(self).v_ram@[0x200 + k] == data@[k],
            forall|t: int|
                0 <= t < 4096 && !(0x200 <= t < 0x200 + data@.len()) ==> final(self).v_ram@[t]
                    == old(self).v_ram@[t],
            final(self).opcode == old(self).opcode,
            final(self).v@ == old(self).v@,
            final(self).i == old(self).i,
            final(self).pc == old(self).pc,
            final(self).stack@ == old(self).stack@,
            final(self).sp == old(self).sp,
            final(self).delay_timer == old(self).delay_timer,
            final(self).sound_timer == old(self).sound_timer,
            final(self).screen == old(self).screen,
            final(self).key_pad == old(self).key_pad,
    {
        let mut idx: usize = 0;
        while idx < data.len() && idx < 3584
            invariant
                old(self).wf(),
                self.wf(),
                idx <= data@.len(),
                idx <= 3584,
                forall|k: int| 0 <= k < idx ==> self.v_ram@[0x200 + k] == data@[k],
                forall|t: int|
                    0 <= t < 4096 && !(0x200 <= t < 0x200 + idx) ==> self.v_ram@[t] == old(
                        self,
                    ).v_ram@[t],
                self.opcode == old(self).opcode,
                self.v@ == old(self).v@,
                self.i == old(self).i,
                self.pc == old(self).pc,
                self.stack@ == old(self).stack@,
                self.sp == old(self).sp,
                self.delay_timer == old(self).delay_timer,
                self.sound_timer == old(self).sound_timer,
                self.screen == old(self).screen,
                self.key_pad == old(self).key_pad,
            decreases data@.len() - idx,
        {
            self.v_ram.set(0x200 + idx, data[idx]);
            idx = idx + 1;
        }
    }

    /// Reads the two bytes at the program counter as one big-endian
    /// instruction word.
    pub fn fetch_opcode(&mut self)
        requires
            old(self).wf(),
            old(self).pc + 1 < 4096,
        ensures
            *final(self) == (Cpu { opcode: fetched(*old(self)), ..*old(self) }),
    {
        let hi: u8 = self.v_ram[self.pc];
        let lo: u8 = self.v_ram[self.pc + 1];
        let op: u16 = ((hi as u16) << 8) | (lo as u16);
        proof {
            let h = hi as u16;
            let l = lo as u16;
            assert(h <= 255 && l <= 255 ==> ((h << 8) | l) == h * 256 + l) by (bit_vector);
        }
        self.opcode = op;
    }

    /// The `x` register selector of the current opcode.
    fn op_x(&self) -> (r: usize)
        ensures
            r == spec_x(self.opcode),
            r < 16,
    {
        let op = self.opcode;
        proof {
            assert(((op & 0x0F00) >> 8) == ((op >> 8) & 0xF) && ((op >> 8) & 0xF) < 16)
                by (bit_vector);
        }
        ((op & 0x0F00) >> 8) as usize
    }

    /// The `y` register selector of the current opcode.
    fn op_y(&self) -> (r: usize)
        ensures
            r == spec_y(self.opcode),
            r < 16,
    {
        let op = self.opcode;
        proof {
            assert(((op & 0x00F0) >> 4) == ((op >> 4) & 0xF) && ((op >> 4) & 0xF) < 16)
                by (bit_vector);
        }
        ((op & 0x00F0) >> 4) as usize
    }

    /// The `n` immediate of the current opcode.
    fn op_n(&self) -> (r: u8)
        ensures
            r == spec_n(self.opcode),
            r < 16,
    {
        let op = self.opcode;
        proof {
            assert((op & 0xF) < 16) by (bit_vector);
        }
        (op & 0x000F) as u8
    }

    /// The `nn` immediate of the current opcode.
    fn op_nn(&self) -> (r: u8)
        ensures
            r == spec_nn(self.opcode),
    {
        let op = self.opcode;
        proof {
            assert((op & 0xFF) < 256) by (bit_vector);
        }
        (op & 0x00FF) as u8
    }

    /// The `nnn` immediate of the current opcode.
    fn op_nnn(&self) -> (r: u16)
        ensures
            r == spec_nnn(self.opcode),
            r < 4096,
    {
        let op = self.opcode;
        proof {
            assert((op & 0xFFF) < 4096) by (bit_vector);
        }
        op & 0x0FFF
    }
}

/// The memory is untouched.
pub open spec fn same_mem(pre: Cpu, post: Cpu) -> bool {
    post.v_ram@ == pre.v_ram@
}

/// The general registers are untouched.
pub open spec fn same_regs(pre: Cpu, post: Cpu) -> bool {
    post.v@ == pre.v@
}

/// The index register is untouched.
pub open spec fn same_index(pre: Cpu, post: Cpu) -> bool {
    post.i == pre.i
}

/// The call stack and stack pointer are untouched.
pub open spec fn same_stack(pre: Cpu, post: Cpu) -> bool {
    post.stack@ == pre.stack@ && post.sp == pre.sp
}

/// Both timers are untouched.
pub open spec fn same_timers(pre: Cpu, post: Cpu) -> bool {
    post.delay_timer == pre.delay_timer && post.sound_timer == pre.sound_timer
}

/// The frame buffer is untouched.
pub open spec fn same_screen(pre: Cpu, post: Cpu) -> bool {
    post.screen.gfx@ == pre.screen.gfx@ && post.screen.draw_flag == pre.screen.draw_flag
}

/// Class 0x0, decoded on the low nibble: 0 clears the screen, 0xE returns
/// from a subroutine (an empty stack wraps to the top slot, the counterpart
/// of the overwrite-on-overflow policy of calls), anything else is an
/// unrecognized code with no effect; all three then advance normally.
pub open spec fn effect_0(pre: Cpu, post: Cpu) -> bool {
    let sub = pre.opcode & 0x000F;
    &&& same_mem(pre, post)
    &&& same_regs(pre, post)
    &&& same_index(pre, post)
    &&& same_timers(pre, post)
    &&& if sub == 0x0 {
        &&& post.screen.gfx@.len() == 2048
        &&& (forall|t: int| 0 <= t < 2048 ==> post.screen.gfx@[t] == 0)
        &&& post.screen.draw_flag
        &&& same_stack(pre, post)
        &&& post.pc == pre.pc + 2
    } else if sub == 0xE {
        let spn: int = if pre.sp == 0 {
            15
        } else {
            pre.sp - 1
        };
        &&& same_screen(pre, post)
        &&& post.stack@ == pre.stack@
        &&& post.sp == spn
        &&& post.pc == pre.stack@[spn] + 2
    } else {
        &&& same_screen(pre, post)
        &&& same_stack(pre, post)
        &&& post.pc == pre.pc + 2
    }
}

/// 0x1nnn: jump to nnn.
pub open spec fn effect_1(pre: Cpu, post: Cpu) -> bool {
    &&& same_mem(pre, post)
    &&& same_regs(pre, post)
    &&& same_index(pre, post)
    &&& same_stack(pre, post)
    &&& same_timers(pre, post)
    &&& same_screen(pre, post)
    &&& post.pc == spec_nnn(pre.opcode)
}

/// 0x2nnn: push the current program counter and jump to nnn. A full stack
/// wraps around and overwrites the bottom slot rather than faulting.
pub open spec fn effect_2(pre: Cpu, post: Cpu) -> bool {
    let slot: int = if pre.sp >= 16 {
        0
    } else {
        pre.sp as int
    };
    &&& same_mem(pre, post)
    &&& same_regs(pre, post)
    &&& same_index(pre, post)
    &&& same_timers(pre, post)
    &&& same_screen(pre, post)
    &&& post.stack@ == pre.stack@.update(slot, pre.pc as u16)
    &&& post.sp == slot + 1
    &&& post.pc == spec_nnn(pre.opcode)
}

/// A conditional skip: the program counter advances by 4 when the
/// condition holds, else by 2.
pub open spec fn skip_effect(pre: Cpu, post: Cpu, cond: bool) -> bool {
    &&& same_mem(pre, post)
    &&& same_regs(pre, post)
    &&& same_index(pre, post)
    &&& same_stack(pre, post)
    &&& same_timers(pre, post)
    &&& same_screen(pre, post)
    &&& post.pc == pre.pc + if cond {
        4int
    } else {
        2int
    }
}

/// A write to the register file alone, with the normal advance by 2.
pub open spec fn regs_effect(pre: Cpu, post: Cpu, regs: Seq<u8>) -> bool {
    &&& same_mem(pre, post)
    &&& same_index(pre, post)
    &&& same_stack(pre, post)
    &&& same_timers(pre, post)
    &&& same_screen(pre, post)
    &&& post.v@ == regs
    &&& post.pc == pre.pc + 2
}

/// The register file after a class-0x8 arithmetic or logic opcode, decoded
/// on the low nibble, written exactly in the order the machine writes it:
/// where VF doubles as the selected register, the later write wins.
pub open spec fn regs_after_8(v: Seq<u8>, sub: u16, x: int, y: int) -> Seq<u8> {
    if sub == 0x0 {
        v.update(x, v[y])
    } else if sub == 0x1 {
        v.update(x, v[x] | v[y])
    } else if sub == 0x2 {
        v.update(x, v[x] & v[y])
    } else if sub == 0x3 {
        v.update(x, v[x] ^ v[y])
    } else if sub == 0x4 {
        let v1 = v.update(x, wrap_add(v[x], v[y]));
        v1.update(15, if v1[x] < v1[y] {
            1u8
        } else {
            0u8
        })
    } else if sub == 0x5 {
        let v1 = v.update(15, if v[x] > v[y] {
            1u8
        } else {
            0u8
        });
        v1.update(x, wrap_sub(v1[x], v1[y]))
    } else if sub == 0x6 {
        let v1 = v.update(15, v[x] & 1);
        v1.update(x, v1[x] >> 1)
    } else if sub == 0x7 {
        let v1 = v.update(15, if v[y] > v[x] {
            1u8
        } else {
            0u8
        });
        v1.update(x, wrap_sub(v1[y], v1[x]))
    } else if sub == 0xE {
        let v1 = v.update(15, v[x] >> 7);
        v1.update(x, v1[x] << 1)
    } else {
        v
    }
}

/// 0xCxnn: Vx receives nn masked onto a byte about which nothing more is
/// known than that it was drawn by the host's generator.
pub open spec fn effect_c(pre: Cpu, post: Cpu) -> bool {
    &&& same_mem(pre, post)
    &&& same_index(pre, post)
    &&& same_stack(pre, post)
    &&& same_timers(pre, post)
    &&& same_screen(pre, post)
    &&& (exists|b: u8|
        post.v@ == pre.v@.update(spec_x(pre.opcode), #[trigger] (spec_nn(pre.opcode) & b)))
    &&& post.pc == pre.pc + 2
}

/// 0xDxyn: blit the n-byte sprite at memory[I..I+n] to (Vx, Vy); VF
/// receives the blit's collision flag.
pub open spec fn effect_d(pre: Cpu, post: Cpu) -> bool {
    let op = pre.opcode;
    let sprite = pre.v_ram@.subrange(pre.i as int, pre.i + spec_n(op));
    let res = spec_draw(
        pre.screen.gfx@,
        pre.v@[spec_x(op)] as int,
        pre.v@[spec_y(op)] as int,
        sprite,
    );
    &&& same_mem(pre, post)
    &&& same_index(pre, post)
    &&& same_stack(pre, post)
    &&& same_timers(pre, post)
    &&& post.screen.gfx@ == res.0
    &&& post.screen.draw_flag
    &&& post.v@ == pre.v@.update(15, res.1)
    &&& post.pc == pre.pc + 2
}

/// Class 0xE, decoded on the low byte: skip on key Vx held (0x9E) or not
/// held (0xA1); an unrecognized code falls through with the normal advance.
pub open spec fn effect_e(pre: Cpu, post: Cpu) -> bool {
    let sub = pre.opcode & 0x00FF;
    let key = pre.v@[spec_x(pre.opcode)] as int;
    if sub == 0x9E {
        skip_effect(pre, post, pre.key_pad.keys@[key])
    } else if sub == 0xA1 {
        skip_effect(pre, post, !pre.key_pad.keys@[key])
    } else {
        skip_effect(pre, post, false)
    }
}

/// Class 0xF, decoded on the low byte: timer reads and writes, key wait,
/// index arithmetic, font addressing, the BCD store with its as-built
/// third-digit formula, and register dump and restore, both of which
/// advance I by x + 1.
pub open spec fn effect_f(pre: Cpu, post: Cpu) -> bool {
    let op = pre.opcode;
    let sub = op & 0x00FF;
    let x = spec_x(op);
    if sub == 0x07 {
        regs_effect(pre, post, pre.v@.update(x, pre.delay_timer))
    } else if sub == 0x0A {
        let fk = first_key_from(pre.key_pad.keys@, 0);
        &&& same_mem(pre, post)
        &&& same_index(pre, post)
        &&& same_stack(pre, post)
        &&& same_timers(pre, post)
        &&& same_screen(pre, post)
        &&& if fk >= 0 {
            post.v@ == pre.v@.update(x, fk as u8) && post.pc == pre.pc + 2
        } else {
            post.v@ == pre.v@ && post.pc == pre.pc
        }
    } else if sub == 0x15 {
        &&& same_mem(pre, post)
        &&& same_regs(pre, post)
        &&& same_index(pre, post)
        &&& same_stack(pre, post)
        &&& same_screen(pre, post)
        &&& post.delay_timer == pre.v@[x]
        &&& post.sound_timer == pre.sound_timer
        &&& post.pc == pre.pc + 2
    } else if sub == 0x18 {
        &&& same_mem(pre, post)
        &&& same_regs(pre, post)
        &&& same_index(pre, post)
        &&& same_stack(pre, post)
        &&& same_screen(pre, post)
        &&& post.delay_timer == pre.delay_timer
        &&& post.sound_timer == pre.v@[x]
        &&& post.pc == pre.pc + 2
    } else if sub == 0x1E {
        &&& same_mem(pre, post)
        &&& same_regs(pre, post)
        &&& same_stack(pre, post)
        &&& same_timers(pre, post)
        &&& same_screen(pre, post)
        &&& post.i == pre.i + pre.v@[x]
        &&& post.pc == pre.pc + 2
    } else if sub == 0x29 {
        &&& same_mem(pre, post)
        &&& same_regs(pre, post)
        &&& same_stack(pre, post)
        &&& same_timers(pre, post)
        &&& same_screen(pre, post)
        &&& post.i == pre.v@[x] * 5
        &&& post.pc == pre.pc + 2
    } else if sub == 0x33 {
        &&& same_regs(pre, post)
        &&& same_index(pre, post)
        &&& same_stack(pre, post)
        &&& same_timers(pre, post)
        &&& same_screen(pre, post)
        &&& post.v_ram@ == pre.v_ram@.update(pre.i as int, (pre.v@[x] / 100) as u8).update(
            pre.i + 1,
            ((pre.v@[x] / 10) % 10) as u8,
        ).update(pre.i + 2, ((pre.v@[x] / 100) % 10) as u8)
        &&& post.pc == pre.pc + 2
    } else if sub == 0x55 {
        &&& same_regs(pre, post)
        &&& same_stack(pre, post)
        &&& same_timers(pre, post)
        &&& same_screen(pre, post)
        &&& post.v_ram@.len() == 4096
        &&& (forall|k: int| 0 <= k <= x ==> post.v_ram@[pre.i + k] == pre.v@[k])
        &&& (forall|t: int|
            0 <= t < 4096 && !(pre.i <= t <= pre.i + x) ==> post.v_ram@[t] == pre.v_ram@[t])
        &&& post.i == pre.i + x + 1
        &&& post.pc == pre.pc + 2
    } else if sub == 0x65 {
        &&& same_mem(pre, post)
        &&& same_stack(pre, post)
        &&& same_timers(pre, post)
        &&& same_screen(pre, post)
        &&& post.v@.len() == 16
        &&& (forall|k: int| 0 <= k <= x ==> post.v@[k] == pre.v_ram@[pre.i + k])
        &&& (forall|k: int| x < k < 16 ==> post.v@[k] == pre.v@[k])
        &&& post.i == pre.i + x + 1
        &&& post.pc == pre.pc + 2
    } else {
        &&& same_mem(pre, post)
        &&& same_regs(pre, post)
        &&& same_index(pre, post)
        &&& same_stack(pre, post)
        &&& same_timers(pre, post)
        &&& same_screen(pre, post)
        &&& post.pc == pre.pc + 2
    }
}

/// What one execute step does, as a relation between the machine before
/// and after, decoded first on the class nibble: nondeterministic only
/// where the random opcode consults the host's generator.
pub open spec fn exec_effect(pre: Cpu, post: Cpu) -> bool {
    let op = pre.opcode;
    let cls = op & 0xF000;
    let x = spec_x(op);
    let y = spec_y(op);
    &&& post.opcode == pre.opcode
    &&& post.key_pad.keys@ == pre.key_pad.keys@
    &&& if cls == 0x0000 {
        effect_0(pre, post)
    } else if cls == 0x1000 {
        effect_1(pre, post)
    } else if cls == 0x2000 {
        effect_2(pre, post)
    } else if cls == 0x3000 {
        skip_effect(pre, post, pre.v@[x] == spec_nn(op))
    } else if cls == 0x4000 {
        skip_effect(pre, post, pre.v@[x] != spec_nn(op))
    } else if cls == 0x5000 {
        skip_effect(pre, post, pre.v@[x] == pre.v@[y])
    } else if cls == 0x6000 {
        regs_effect(pre, post, pre.v@.update(x, spec_nn(op)))
    } else if cls == 0x7000 {
        regs_effect(pre, post, pre.v@.update(x, wrap_add(pre.v@[x], spec_nn(op))))
    } else if cls == 0x8000 {
        regs_effect(pre, post, regs_after_8(pre.v@, op & 0x000F, x, y))
    } else if cls == 0x9000 {
        skip_effect(pre, post, pre.v@[x] != pre.v@[y])
    } else if cls == 0xA000 {
        &&& same_mem(pre, post)
        &&& same_regs(pre, post)
        &&& same_stack(pre, post)
        &&& same_timers(pre, post)
        &&& same_screen(pre, post)
        &&& post.i == spec_nnn(op)
        &&& post.pc == pre.pc + 2
    } else if cls == 0xB000 {
        &&& same_mem(pre, post)
        &&& same_regs(pre, post)
        &&& same_index(pre, post)
        &&& same_stack(pre, post)
        &&& same_timers(pre, post)
        &&& same_screen(pre, post)
        &&& post.pc == spec_nnn(op) + pre.v@[0]
    } else if cls == 0xC000 {
        effect_c(pre, post)
    } else if cls == 0xD000 {
        effect_d(pre, post)
    } else if cls == 0xE000 {
        effect_e(pre, post)
    } else {
        effect_f(pre, post)
    }
}

/// The inputs on which one execute step of the fetched word `op` stays
/// inside the machine's arrays and the host's address space; everything
/// else the decoder masks into range itself.
pub open spec fn exec_ok(c: Cpu, op: u16) -> bool {
    let cls = op & 0xF000;
    let sub = op & 0x00FF;
    let x = spec_x(op);
    if cls == 0xD000 {
        c.i + spec_n(op) <= 4096
    } else if cls == 0xE000 {
        (sub == 0x9E || sub == 0xA1) ==> c.v@[x] < 16
    } else if cls == 0xF000 {
        if sub == 0x1E {
            c.i + c.v@[x] <= usize::MAX
        } else if sub == 0x33 {
            c.i + 2 < 4096
        } else if sub == 0x55 || sub == 0x65 {
            c.i + x < 4096
        } else {
            true
        }
    } else {
        true
    }
}

/// Whether the next tick can run without faulting: the machine is sound,
/// both instruction bytes are fetchable, and the fetched word passes its
/// execute-step bounds.
pub open spec fn tick_ok(c: Cpu) -> bool {
    &&& c.wf()
    &&& c.pc + 1 < 4096
    &&& exec_ok(c, fetched(c))
}

/// Relies on rand::random: an arbitrary value of the type, about which
/// nothing is assumed.
pub assume_specification<T>[ rand::random::<T> ]() -> (r: T)
    where
        rand::distributions::Standard: rand::distributions::Distribution<T>,
;

impl Cpu {
    /// Class 0x0: clear screen, subroutine return, or an ignored code.
    fn op_0xxx(&mut self)
        requires
            old(self).wf(),
            old(self).pc <= 4094,
        ensures
            final(self).wf(),
            final(self).opcode == old(self).opcode,
            final(self).key_pad.keys@ == old(self).key_pad.keys@,
            effect_0(*old(self), *final(self)),
    {
        let sub = self.opcode & 0x000F;
        if sub == 0x0000 {
            self.screen.clear();
        } else if sub == 0x000E {
            let spn: usize = if self.sp == 0 {
                15
            } else {
                self.sp - 1
            };
            self.sp = spn;
            self.pc = self.stack[spn] as usize;
        } else {
            // unrecognized code inside class 0x0: no effect beyond the advance
        }
        self.pc = self.pc + 2;
    }

    /// 0x1nnn: jump.
    fn op_1xxx(&mut self)
        requires
            old(self).wf(),
        ensures
            final(self).wf(),
            final(self).opcode == old(self).opcode,
            final(self).key_pad.keys@ == old(self).key_pad.keys@,
            effect_1(*old(self), *final(self)),
    {
        self.pc = self.op_nnn() as usize;
    }

    /// 0x2nnn: call; a full stack wraps to the bottom slot.
    fn op_2xxx(&mut self)
        requires
            old(self).wf(),
            old(self).pc <= 4094,
        ensures
            final(self).wf(),
            final(self).opcode == old(self).opcode,
            final(self).key_pad.keys@ == old(self).key_pad.keys@,
            effect_2(*old(self), *final(self)),
    {
        let slot: usize = if self.sp >= 16 {
            0
        } else {
            self.sp
        };
        self.stack.set(slot, self.pc as u16);
        self.sp = slot + 1;
        self.pc = self.op_nnn() as usize;
    }

    /// 0x3xnn: skip when Vx equals nn.
    fn op_3xxx(&mut self)
        requires
            old(self).wf(),
            old(self).pc <= 4094,
        ensures
            final(self).wf(),
            final(self).opcode == old(self).opcode,
            final(self).key_pad.keys@ == old(self).key_pad.keys@,
            skip_effect(
                *old(self),
                *final(self),
                old(self).v@[spec_x(old(self).opcode)] == spec_nn(old(self).opcode),
            ),
    {
        let xr = self.op_x();
        let nn = self.op_nn();
        if self.v[xr] == nn {
            self.pc = self.pc + 4;
        } else {
            self.pc = self.pc + 2;
        }
    }

    /// 0x4xnn: skip when Vx differs from nn.
    fn op_4xxx(&mut self)
        requires
            old(self).wf(),
            old(self).pc <= 4094,
        ensures
            final(self).wf(),
            final(self).opcode == old(self).opcode,
            final(self).key_pad.keys@ == old(self).key_pad.keys@,
            skip_effect(
                *old(self),
                *final(self),
                old(self).v@[spec_x(old(self).opcode)] != spec_nn(old(self).opcode),
            ),
    {
        let xr = self.op_x();
        let nn = self.op_nn();
        if self.v[xr] != nn {
            self.pc = self.pc + 4;
        } else {
            self.pc = self.pc + 2;
        }
    }

    /// 0x5xy0 class: skip when Vx equals Vy.
    fn op_5xxx(&mut self)
        requires
            old(self).wf(),
            old(self).pc <= 4094,
        ensures
            final(self).wf(),
            final(self).opcode == old(self).opcode,
            final(self).key_pad.keys@ == old(self).key_pad.keys@,
            skip_effect(
                *old(self),
                *final(self),
                old(self).v@[spec_x(old(self).opcode)] == old(self).v@[spec_y(old(self).opcode)],
            ),
    {
        let xr = self.op_x();
        let yr = self.op_y();
        if self.v[xr] == self.v[yr] {
            self.pc = self.pc + 4;
        } else {
            self.pc = self.pc + 2;
        }
    }

    /// 0x6xnn: Vx receives nn.
    fn op_6xxx(&mut self)
        requires
            old(self).wf(),
            old(self).pc <= 4094,
        ensures
            final(self).wf(),
            final(self).opcode == old(self).opcode,
            final(self).key_pad.keys@ == old(self).key_pad.keys@,
            regs_effect(
                *old(self),
                *final(self),
                old(self).v@.update(spec_x(old(self).opcode), spec_nn(old(self).opcode)),
            ),
    {
        let xr = self.op_x();
        let nn = self.op_nn();
        self.v.set(xr, nn);
        self.pc = self.pc + 2;
    }

    /// 0x7xnn: Vx receives Vx plus nn, wrapping modulo 256, with no flag.
    fn op_7xxx(&mut self)
        requires
            old(self).wf(),
            old(self).pc <= 4094,
        ensures
            final(self).wf(),
            final(self).opcode == old(self).opcode,
            final(self).key_pad.keys@ == old(self).key_pad.keys@,
            regs_effect(
                *old(self),
                *final(self),
                old(self).v@.update(
                    spec_x(old(self).opcode),
                    wrap_add(
                        old(self).v@[spec_x(old(self).opcode)],
                        spec_nn(old(self).opcode),
                    ),
                ),
            ),
    {
        let xr = self.op_x();
        let nn = self.op_nn();
        let val = self.v[xr].wrapping_add(nn);
        self.v.set(xr, val);
        self.pc = self.pc + 2;
    }

    /// Class 0x8: register-to-register moves, logic, wrapping arithmetic
    /// with its flag conventions, and the two shifts.
    fn op_8xxx(&mut self)
        requires
            old(self).wf(),
            old(self).pc <= 4094,
        ensures
            final(self).wf(),
            final(self).opcode == old(self).opcode,
            final(self).key_pad.keys@ == old(self).key_pad.keys@,
            regs_effect(
                *old(self),
                *final(self),
                regs_after_8(
                    old(self).v@,
                    old(self).opcode & 0x000F,
                    spec_x(old(self).opcode),
                    spec_y(old(self).opcode),
                ),
            ),
    {
        let sub = self.opcode & 0x000F;
        let xr = self.op_x();
        let yr = self.op_y();
        if sub == 0x0 {
            let val = self.v[yr];
            self.v.set(xr, val);
        } else if sub == 0x1 {
            let val = self.v[xr] | self.v[yr];
            self.v.set(xr, val);
        } else if sub == 0x2 {
            let val = self.v[xr] & self.v[yr];
            self.v.set(xr, val);
        } else if sub == 0x3 {
            let val = self.v[xr] ^ self.v[yr];
            self.v.set(xr, val);
        } else if sub == 0x4 {
            let val = self.v[xr].wrapping_add(self.v[yr]);
            self.v.set(xr, val);
            let flag: u8 = if self.v[xr] < self.v[yr] {
                1
            } else {
                0
            };
            self.v.set(15, flag);
        } else if sub == 0x5 {
            let flag: u8 = if self.v[xr] > self.v[yr] {
                1
            } else {
                0
            };
            self.v.set(15, flag);
            let val = self.v[xr].wrapping_sub(self.v[yr]);
            self.v.set(xr, val);
        } else if sub == 0x6 {
            let flag: u8 = self.v[xr] & 1;
            self.v.set(15, flag);
            let val = self.v[xr] >> 1u8;
            self.v.set(xr, val);
        } else if sub == 0x7 {
            let flag: u8 = if self.v[yr] > self.v[xr] {
                1
            } else {
                0
            };
            self.v.set(15, flag);
            let val = self.v[yr].wrapping_sub(self.v[xr]);
            self.v.set(xr, val);
        } else if sub == 0xE {
            let flag: u8 = self.v[xr] >> 7u8;
            self.v.set(15, flag);
            let val = self.v[xr] << 1u8;
            self.v.set(xr, val);
        } else {
            // unrecognized code inside class 0x8: no effect beyond the advance
        }
        self.pc = self.pc + 2;
    }

    /// 0x9xy0 class: skip when Vx differs from Vy.
    fn op_9xxx(&mut self)
        requires
            old(self).wf(),
            old(self).pc <= 4094,
        ensures
            final(self).wf(),
            final(self).opcode == old(self).opcode,
            final(self).key_pad.keys@ == old(self).key_pad.keys@,
            skip_effect(
                *old(self),
                *final(self),
                old(self).v@[spec_x(old(self).opcode)] != old(self).v@[spec_y(old(self).opcode)],
            ),
    {
        let xr = self.op_x();
        let yr = self.op_y();
        if self.v[xr] != self.v[yr] {
            self.pc = self.pc + 4;
        } else {
            self.pc = self.pc + 2;
        }
    }

    /// 0xAnnn: the index register receives nnn.
    fn op_axxx(&mut self)
        requires
            old(self).wf(),
            old(self).pc <= 4094,
        ensures
            final(self).wf(),
            final(self).opcode == old(self).opcode,
            final(self).key_pad.keys@ == old(self).key_pad.keys@,
            same_mem(*old(self), *final(self)),
            same_regs(*old(self), *final(self)),
            same_stack(*old(self), *final(self)),
            same_timers(*old(self), *final(self)),
            same_screen(*old(self), *final(self)),
            final(self).i == spec_nnn(old(self).opcode),
            final(self).pc == old(self).pc + 2,
    {
        self.i = self.op_nnn() as usize;
        self.pc = self.pc + 2;
    }

    /// 0xBnnn: jump to nnn plus V0.
    fn op_bxxx(&mut self)
        requires
            old(self).wf(),
        ensures
            final(self).wf(),
            final(self).opcode == old(self).opcode,
            final(self).key_pad.keys@ == old(self).key_pad.keys@,
            same_mem(*old(self), *final(self)),
            same_regs(*old(self), *final(self)),
            same_index(*old(self), *final(self)),
            same_stack(*old(self), *final(self)),
            same_timers(*old(self), *final(self)),
            same_screen(*old(self), *final(self)),
            final(self).pc == spec_nnn(old(self).opcode) + old(self).v@[0],
    {
        self.pc = (self.op_nnn() as usize) + (self.v[0] as usize);
    }

    /// 0xCxnn: Vx receives nn masked onto a freshly drawn random byte.
    fn op_cxxx(&mut self)
        requires
            old(self).wf(),
            old(self).pc <= 4094,
        ensures
            final(self).wf(),
            final(self).opcode == old(self).opcode,
            final(self).key_pad.keys@ == old(self).key_pad.keys@,
            effect_c(*old(self), *final(self)),
    {
        let rb: u8 = rand::random::<u8>();
        let xr = self.op_x();
        let nn = self.op_nn();
        self.v.set(xr, nn & rb);
        self.pc = self.pc + 2;
        proof {
            assert(self.v@ == old(self).v@.update(
                spec_x(old(self).opcode),
                spec_nn(old(self).opcode) & rb,
            ));
        }
    }

    /// 0xDxyn: gather the sprite from memory at the index register and
    /// blit it at (Vx, Vy); VF receives the collision flag.
    fn op_dxxx(&mut self)
        requires
            old(self).wf(),
            old(self).pc <= 4094,
            old(self).i + spec_n(old(self).opcode) <= 4096,
        ensures
            final(self).wf(),
            final(self).opcode == old(self).opcode,
            final(self).key_pad.keys@ == old(self).key_pad.keys@,
            effect_d(*old(self), *final(self)),
    {
        let n = self.op_n() as usize;
        let start = self.i;
        let mut sprite: Vec<u8> = Vec::new();
        let mut k: usize = 0;
        while k < n
            invariant
                k <= n,
                start + n <= 4096,
                self == old(self),
                self.wf(),
                sprite@.len() == k,
                forall|j: int| 0 <= j < k ==> sprite@[j] == self.v_ram@[start + j],
            decreases n - k,
        {
            sprite.push(self.v_ram[start + k]);
            k = k + 1;
        }
        proof {
            assert(sprite@ =~= old(self).v_ram@.subrange(start as int, start + n));
        }
        let x = self.v[self.op_x()] as usize;
        let y = self.v[self.op_y()] as usize;
        let coll = self.screen.draw(x, y, sprite.as_slice());
        self.v.set(15, coll);
        self.pc = self.pc + 2;
    }

    /// Class 0xE: the two key-state skips.
    fn op_exxx(&mut self)
        requires
            old(self).wf(),
            old(self).pc <= 4094,
            (old(self).opcode & 0x00FF == 0x9E || old(self).opcode & 0x00FF == 0xA1) ==> old(
                self,
            ).v@[spec_x(old(self).opcode)] < 16,
        ensures
            final(self).wf(),
            final(self).opcode == old(self).opcode,
            final(self).key_pad.keys@ == old(self).key_pad.keys@,
            effect_e(*old(self), *final(self)),
    {
        let sub = self.opcode & 0x00FF;
        let xr = self.op_x();
        if sub == 0x9E {
            let key = self.v[xr] as usize;
            if self.key_pad.keys[key] {
                self.pc = self.pc + 4;
            } else {
                self.pc = self.pc + 2;
            }
        } else if sub == 0xA1 {
            let key = self.v[xr] as usize;
            if !self.key_pad.keys[key] {
                self.pc = self.pc + 4;
            } else {
                self.pc = self.pc + 2;
            }
        } else {
            self.pc = self.pc + 2;
        }
    }

    /// 0xFx0A: scan the sixteen keys in order; on the first held key write
    /// its index into Vx and advance, otherwise leave the program counter
    /// in place so the same instruction is fetched again next tick.
    fn wait_keypress(&mut self)
        requires
            old(self).wf(),
            old(self).pc <= 4094,
        ensures
            final(self).wf(),
            final(self).opcode == old(self).opcode,
            final(self).key_pad.keys@ == old(self).key_pad.keys@,
            same_mem(*old(self), *final(self)),
            same_index(*old(self), *final(self)),
            same_stack(*old(self), *final(self)),
            same_timers(*old(self), *final(self)),
            same_screen(*old(self), *final(self)),
            ({
                let fk = first_key_from(old(self).key_pad.keys@, 0);
                if fk >= 0 {
                    final(self).v@ == old(self).v@.update(spec_x(old(self).opcode), fk as u8)
                        && final(self).pc == old(self).pc + 2
                } else {
                    final(self).v@ == old(self).v@ && final(self).pc == old(self).pc
                }
            }),
    {
        let mut k: usize = 0;
        while k < 16 && !self.key_pad.keys[k]
            invariant
                self == old(self),
                self.wf(),
                k <= 16,
                first_key_from(self.key_pad.keys@, k as int) == first_key_from(
                    self.key_pad.keys@,
                    0,
                ),
            decreases 16 - k,
        {
            k = k + 1;
        }
        if k < 16 {
            let xr = self.op_x();
            self.v.set(xr, k as u8);
            self.pc = self.pc + 2;
        }
    }

    /// Class 0xF: timers, key wait, index arithmetic, font addressing, the
    /// BCD store, and register dump and restore.
    fn op_fxxx(&mut self)
        requires
            old(self).wf(),
            old(self).pc <= 4094,
            exec_ok(*old(self), old(self).opcode),
            old(self).opcode & 0xF000 == 0xF000,
        ensures
            final(self).wf(),
            final(self).opcode == old(self).opcode,
            final(self).key_pad.keys@ == old(self).key_pad.keys@,
            effect_f(*old(self), *final(self)),
    {
        let sub = self.opcode & 0x00FF;
        let xr = self.op_x();
        if sub == 0x07 {
            let val = self.delay_timer;
            self.v.set(xr, val);
            self.pc = self.pc + 2;
        } else if sub == 0x0A {
            self.wait_keypress();
        } else if sub == 0x15 {
            self.delay_timer = self.v[xr];
            self.pc = self.pc + 2;
        } else if sub == 0x18 {
            self.sound_timer = self.v[xr];
            self.pc = self.pc + 2;
        } else if sub == 0x1E {
            self.i = self.i + (self.v[xr] as usize);
            self.pc = self.pc + 2;
        } else if sub == 0x29 {
            self.i = (self.v[xr] as usize) * 5;
            self.pc = self.pc + 2;
        } else if sub == 0x33 {
            let xv = self.v[xr];
            self.v_ram.set(self.i, xv / 100);
            self.v_ram.set(self.i + 1, (xv / 10) % 10);
            self.v_ram.set(self.i + 2, (xv / 100) % 10);
            self.pc = self.pc + 2;
        } else if sub == 0x55 {
            let mut k: usize = 0;
            while k < xr + 1
                invariant
                    self.wf(),
                    k <= xr + 1,
                    xr == spec_x(old(self).opcode),
                    xr < 16,
                    old(self).i + xr < 4096,
                    self.opcode == old(self).opcode,
                    self.v@ == old(self).v@,
                    self.i == old(self).i,
                    self.pc == old(self).pc,
                    self.stack@ == old(self).stack@,
                    self.sp == old(self).sp,
                    self.delay_timer == old(self).delay_timer,
                    self.sound_timer == old(self).sound_timer,
                    self.screen == old(self).screen,
                    self.key_pad == old(self).key_pad,
                    self.v_ram@.len() == 4096,
                    forall|j: int| 0 <= j < k ==> self.v_ram@[old(self).i + j] == old(self).v@[j],
                    forall|t: int|
                        0 <= t < 4096 && !(old(self).i <= t < old(self).i + k)
                            ==> self.v_ram@[t] == old(self).v_ram@[t],
                decreases xr + 1 - k,
            {
                let val = self.v[k];
                self.v_ram.set(self.i + k, val);
                k = k + 1;
            }
            self.i = self.i + xr + 1;
            self.pc = self.pc + 2;
        } else if sub == 0x65 {
            let mut k: usize = 0;
            while k < xr + 1
                invariant
                    self.wf(),
                    k <= xr + 1,
                    xr == spec_x(old(self).opcode),
                    xr < 16,
                    old(self).i + xr < 4096,
                    self.opcode == old(self).opcode,
                    self.v_ram@ == old(self).v_ram@,
                    self.i == old(self).i,
                    self.pc == old(self).pc,
                    self.stack@ == old(self).stack@,
                    self.sp == old(self).sp,
                    self.delay_timer == old(self).delay_timer,
                    self.sound_timer == old(self).sound_timer,
                    self.screen == old(self).screen,
                    self.key_pad == old(self).key_pad,
                    self.v@.len() == 16,
                    forall|j: int| 0 <= j < k ==> self.v@[j] == old(self).v_ram@[old(self).i + j],
                    forall|j: int| k <= j < 16 ==> self.v@[j] == old(self).v@[j],
                decreases xr + 1 - k,
            {
                let val = self.v_ram[self.i + k];
                self.v.set(k, val);
                k = k + 1;
            }
            self.i = self.i + xr + 1;
            self.pc = self.pc + 2;
        } else {
            // unrecognized code inside class 0xF: no effect beyond the advance
            self.pc = self.pc + 2;
        }
    }

    /// Decode the class nibble and run one opcode's effect.
    pub fn exec_opcode(&mut self)
        requires
            old(self).wf(),
            old(self).pc <= 4094,
            exec_ok(*old(self), old(self).opcode),
        ensures
            final(self).wf(),
            exec_effect(*old(self), *final(self)),
    {
        let cls = self.opcode & 0xF000;
        if cls == 0x0000 {
            self.op_0xxx();
        } else if cls == 0x1000 {
            self.op_1xxx();
        } else if cls == 0x2000 {
            self.op_2xxx();
        } else if cls == 0x3000 {
            self.op_3xxx();
        } else if cls == 0x4000 {
            self.op_4xxx();
        } else if cls == 0x5000 {
            self.op_5xxx();
        } else if cls == 0x6000 {
            self.op_6xxx();
        } else if cls == 0x7000 {
            self.op_7xxx();
        } else if cls == 0x8000 {
            self.op_8xxx();
        } else if cls == 0x9000 {
            self.op_9xxx();
        } else if cls == 0xA000 {
            self.op_axxx();
        } else if cls == 0xB000 {
            self.op_bxxx();
        } else if cls == 0xC000 {
            self.op_cxxx();
        } else if cls == 0xD000 {
            self.op_dxxx();
        } else if cls == 0xE000 {
            self.op_exxx();
        } else {
            proof {
                let op = self.opcode;
                assert((op & 0xF000 == 0x0000) || (op & 0xF000 == 0x1000) || (op & 0xF000
                    == 0x2000) || (op & 0xF000 == 0x3000) || (op & 0xF000 == 0x4000) || (op & 0xF000
                    == 0x5000) || (op & 0xF000 == 0x6000) || (op & 0xF000 == 0x7000) || (op & 0xF000
                    == 0x8000) || (op & 0xF000 == 0x9000) || (op & 0xF000 == 0xA000) || (op & 0xF000
                    == 0xB000) || (op & 0xF000 == 0xC000) || (op & 0xF000 == 0xD000) || (op & 0xF000
                    == 0xE000) || (op & 0xF000 == 0xF000)) by (bit_vector);
            }
            self.op_fxxx();
        }
    }

    /// Whether the next tick can run without faulting, decided from the
    /// current state alone; the caller tests this before each tick.
    pub fn can_tick(&self) -> (r: bool)
        requires
            self.wf(),
        ensures
            r == tick_ok(*self),
    {
        if self.pc + 1 >= 4096 {
            return false;
        }
        let hi: u8 = self.v_ram[self.pc];
        let lo: u8 = self.v_ram[self.pc + 1];
        let op: u16 = ((hi as u16) << 8) | (lo as u16);
        proof {
            let h = hi as u16;
            let l = lo as u16;
            assert(h <= 255 && l <= 255 ==> ((h << 8) | l) == h * 256 + l) by (bit_vector);
            assert(op == fetched(*self));
        }
        let cls = op & 0xF000;
        let sub = op & 0x00FF;
        let x: usize = ((op & 0x0F00) >> 8) as usize;
        proof {
            assert(((op & 0x0F00) >> 8) == ((op >> 8) & 0xF) && ((op >> 8) & 0xF) < 16)
                by (bit_vector);
        }
        if cls == 0xD000 {
            let n: usize = (op & 0x000F) as usize;
            proof {
                assert((op & 0x000F) < 16) by (bit_vector);
            }
            self.i <= 4096 - n
        } else if cls == 0xE000 {
            if sub == 0x9E || sub == 0xA1 {
                self.v[x] < 16
            } else {
                true
            }
        } else if cls == 0xF000 {
            if sub == 0x1E {
                self.i <= usize::MAX - (self.v[x] as usize)
            } else if sub == 0x33 {
                self.i < 4094
            } else if sub == 0x55 || sub == 0x65 {
                self.i < 4096 && 4096 - self.i > x
            } else {
                true
            }
        } else {
            true
        }
    }

    /// One tick: fetch the word at the program counter, execute it, then
    /// count the delay timer down one step toward zero.
    pub fn tick(&mut self)
        requires
            tick_ok(*old(self)),
        ensures
            final(self).wf(),
            tick_effect(*old(self), *final(self)),
    {
        self.fetch_opcode();
        let ghost mid = *self;
        self.exec_opcode();
        let ghost done = *self;
        if self.delay_timer > 0 {
            self.delay_timer = self.delay_timer - 1;
        }
        proof {
            assert(fetch_rel(*old(self), mid));
            assert(exec_effect(mid, done));
            assert(delay_dec_rel(done, *self));
        }
    }
}

/// The fetch step: only the opcode word changes.
pub open spec fn fetch_rel(pre: Cpu, mid: Cpu) -> bool {
    mid == (Cpu { opcode: fetched(pre), ..pre })
}

/// The timer step: the delay timer counts down one step, nothing else
/// moves.
pub open spec fn delay_dec_rel(done: Cpu, post: Cpu) -> bool {
    post == (Cpu { delay_timer: dec_timer(done.delay_timer), ..done })
}

/// What one tick does: a fetch, the fetched opcode's execute step, then
/// the delay-timer countdown.
pub open spec fn tick_effect(pre: Cpu, post: Cpu) -> bool {
    exists|mid: Cpu, done: Cpu|
        fetch_rel(pre, mid) && #[trigger] exec_effect(mid, done) && delay_dec_rel(done, post)
}

/// A call (0x2nnn) followed by a return (0x00EE), with the call stack and
/// stack pointer undisturbed in between, brings the program counter to the
/// instruction immediately after the call.
pub proof fn lemma_call_return(pre: Cpu, mid: Cpu, ret_pre: Cpu, post: Cpu)
    requires
        pre.wf(),
        pre.pc <= 4094,
        pre.opcode & 0xF000 == 0x2000,
        exec_effect(pre, mid),
        ret_pre.stack@ == mid.stack@,
        ret_pre.sp == mid.sp,
        ret_pre.opcode & 0xF000 == 0x0000,
        ret_pre.opcode & 0x000F == 0x000E,
        exec_effect(ret_pre, post),
    ensures
        post.pc == pre.pc + 2,
{
    let slot: int = if pre.sp >= 16 {
        0
    } else {
        pre.sp as int
    };
    assert(mid.stack@[slot] == pre.pc as u16);
    assert(pre.pc as u16 == pre.pc);
}

/// The 8-bit arithmetic opcodes wrap modulo 256: the sum and difference
/// the register file receives are the mathematical ones reduced into a
/// byte.
pub proof fn lemma_wrap_is_mod_256(a: u8, b: u8)
    ensures
        wrap_add(a, b) == (a + b) % 256,
        wrap_sub(a, b) == (a - b + 256) % 256,
{
}

/// Once the delay timer holds a value, the per-tick countdown brings it to
/// zero after exactly that many steps, and it stays at zero from then on,
/// never wrapping below.
pub proof fn lemma_timer_runs_out(t: u8, n: nat)
    ensures
        iter_dec(t, n) == if n < t {
            (t - n) as u8
        } else {
            0u8
        },
    decreases n,
{
    if n == 0 {
    } else {
        lemma_timer_runs_out(t, (n - 1) as nat);
    }
}

} // verus!
