use vstd::prelude::*;

use crate::Chip8Error;
use crate::MEM_SIZE;
use crate::PROGRAM_START;
use crate::decode::Instr;
use crate::decode::decode;
use crate::decode::spec_decode;
use crate::display::DisplayBuffer;
use crate::display::GRID_AREA;
use crate::display::spec_blit;
use crate::memory::Memory;
use crate::rng::RandomByteGenerator;

verus! {

/// The machine state the decoder/executor mutates: memory, the sixteen
/// general-purpose registers, the program counter, the index register,
/// the call stack and the random-byte source. `V[15]` doubles as the
/// flag register that arithmetic, shifts and sprite drawing overwrite.
pub struct Internals {
    /// The addressable memory.
    pub ram: Memory,
    /// The sixteen 8-bit registers `V0` through `VF`.
    pub v: Vec<u8>,
    /// The program counter.
    pub pc: usize,
    /// The index register `I`.
    pub i: usize,
    /// The call stack of return addresses.
    pub stack: Vec<usize>,
    /// The source the masked-random instruction draws from.
    pub rbg: RandomByteGenerator,
}

/// 8-bit addition that wraps on overflow.
pub open spec fn wrap_add_byte(a: u8, b: u8) -> u8 {
    if a + b > 255 {
        (a + b - 256) as u8
    } else {
        (a + b) as u8
    }
}

/// 8-bit subtraction that wraps on borrow.
pub open spec fn wrap_sub_byte(a: u8, b: u8) -> u8 {
    if a - b < 0 {
        (a - b + 256) as u8
    } else {
        (a - b) as u8
    }
}

/// Address addition that wraps at the machine word, mirroring the
/// wrapping 8-bit immediate add.
pub open spec fn wrap_add_addr(a: usize, b: usize) -> usize {
    if a + b > usize::MAX {
        (a + b - (usize::MAX + 1)) as usize
    } else {
        (a + b) as usize
    }
}

/// Everything but the program counter is kept.
pub open spec fn keeps_all_but_pc(pre: Internals, post: Internals) -> bool {
    &&& post.ram@ == pre.ram@
    &&& post.v@ == pre.v@
    &&& post.i == pre.i
    &&& post.stack@ == pre.stack@
    &&& post.rbg == pre.rbg
}

/// Everything but the program counter and the registers is kept.
pub open spec fn keeps_all_but_pc_regs(pre: Internals, post: Internals) -> bool {
    &&& post.ram@ == pre.ram@
    &&& post.i == pre.i
    &&& post.stack@ == pre.stack@
    &&& post.rbg == pre.rbg
}

/// Everything but the program counter and the index register is kept.
pub open spec fn keeps_all_but_pc_index(pre: Internals, post: Internals) -> bool {
    &&& post.ram@ == pre.ram@
    &&& post.v@ == pre.v@
    &&& post.stack@ == pre.stack@
    &&& post.rbg == pre.rbg
}

impl Internals {
    /// Sixteen registers and a full-capacity memory.
    pub open spec fn wf(&self) -> bool {
        self.v@.len() == 16 && self.ram.wf()
    }

    /// A fresh machine: zeroed memory and registers, the program
    /// counter at `PROGRAM_START`, the index register at zero, an
    /// empty call stack.
    pub fn new() -> (m: Internals)
        ensures
            m.wf(),
            m.pc == PROGRAM_START,
            m.i == 0,
            m.stack@.len() == 0,
            forall|k: int| 0 <= k < 16 ==> m.v@[k] == 0u8,
            forall|k: int| 0 <= k < MEM_SIZE ==> m.ram@[k] == 0u8,
    {
        let mut v: Vec<u8> = Vec::new();
        while v.len() < 16
            invariant
                v@.len() <= 16,
                forall|k: int| 0 <= k < v@.len() ==> v@[k] == 0u8,
            decreases 16 - v@.len(),
        {
            v.push(0u8);
        }
        Internals {
            ram: Memory::new(),
            v,
            pc: PROGRAM_START,
            i: 0,
            stack: Vec::new(),
            rbg: RandomByteGenerator::new(),
        }
    }
}

impl Internals {
    /// Whether the machine is well-formed, decided at run time: an
    /// unverified host can test it before driving the cycle.
    pub fn is_wf(&self) -> (b: bool)
        ensures
            b == self.wf(),
    {
        self.v.len() == 16 && self.ram.len() == MEM_SIZE
    }
}

/// The two bytes at the program counter, or `None` when they do not
/// both lie below capacity.
pub open spec fn spec_fetch(m: Internals) -> Option<(u8, u8)> {
    if m.pc + 1 < MEM_SIZE {
        Some((m.ram@[m.pc as int], m.ram@[m.pc + 1]))
    } else {
        None
    }
}

/// The instruction at the program counter, if the fetch is in range
/// and the bytes are in the opcode table.
pub open spec fn spec_instr(m: Internals) -> Option<Instr> {
    match spec_fetch(m) {
        Some(b) => spec_decode(b.0, b.1),
        None => None,
    }
}

/// The fatal condition one instruction cycle from `m` runs into, if
/// any: a fetch or indexed access beyond capacity, an encoding outside
/// the opcode table, or a return with nothing to return to.
pub open spec fn step_err_spec(m: Internals) -> Option<Chip8Error> {
    if m.pc + 1 >= MEM_SIZE {
        Some(Chip8Error::OutOfBounds)
    } else {
        match spec_instr(m) {
            None => Some(Chip8Error::IllegalInstruction(m.pc)),
            Some(instr) => match instr {
                Instr::Return => if m.stack@.len() == 0 {
                    Some(Chip8Error::MissingReturnAddress)
                } else {
                    None
                },
                Instr::Draw { x, y, n } => if m.i + n > MEM_SIZE {
                    Some(Chip8Error::OutOfBounds)
                } else {
                    None
                },
                Instr::StoreBcd { x } => if m.i + 3 > MEM_SIZE {
                    Some(Chip8Error::OutOfBounds)
                } else {
                    None
                },
                Instr::StoreRegs { x } => if m.i + x + 1 > MEM_SIZE {
                    Some(Chip8Error::OutOfBounds)
                } else {
                    None
                },
                Instr::LoadRegs { x } => if m.i + x + 1 > MEM_SIZE {
                    Some(Chip8Error::OutOfBounds)
                } else {
                    None
                },
                _ => None,
            },
        }
    }
}

/// What one successfully executed instruction does to the machine and
/// the display: the opcode table, line by line. `dpre` and `dpost` are
/// the display before and after, `key` the logical key currently held,
/// `rnd` the byte the random source produced (meaningful only for the
/// masked-random instruction).
pub open spec fn step_ok(
    pre: Internals,
    dpre: Seq<bool>,
    key: Option<u8>,
    rnd: u8,
    instr: Instr,
    post: Internals,
    dpost: Seq<bool>,
) -> bool {
    match instr {
        Instr::ClearScreen => {
            &&& keeps_all_but_pc(pre, post)
            &&& post.pc == pre.pc + 2
            &&& dpost == Seq::new(GRID_AREA as nat, |k: int| false)
        },
        Instr::Return => {
            &&& pre.stack@.len() > 0
            &&& post.ram@ == pre.ram@
            &&& post.v@ == pre.v@
            &&& post.i == pre.i
            &&& post.rbg == pre.rbg
            &&& post.stack@ == pre.stack@.drop_last()
            &&& post.pc == pre.stack@.last()
            &&& dpost == dpre
        },
        Instr::Jump { nnn } => {
            &&& keeps_all_but_pc(pre, post)
            &&& post.pc == nnn
            &&& dpost == dpre
        },
        Instr::Call { nnn } => {
            &&& post.ram@ == pre.ram@
            &&& post.v@ == pre.v@
            &&& post.i == pre.i
            &&& post.rbg == pre.rbg
            &&& post.stack@ == pre.stack@.push((pre.pc + 2) as usize)
            &&& post.pc == nnn
            &&& dpost == dpre
        },
        Instr::SkipEqImm { x, nn } => {
            &&& keeps_all_but_pc(pre, post)
            &&& post.pc == pre.pc + (if pre.v@[x as int] == nn { 4int } else { 2int })
            &&& dpost == dpre
        },
        Instr::SkipNeImm { x, nn } => {
            &&& keeps_all_but_pc(pre, post)
            &&& post.pc == pre.pc + (if pre.v@[x as int] != nn { 4int } else { 2int })
            &&& dpost == dpre
        },
        Instr::SkipEqReg { x, y } => {
            &&& keeps_all_but_pc(pre, post)
            &&& post.pc == pre.pc + (if pre.v@[x as int] == pre.v@[y as int] {
                4int
            } else {
                2int
            })
            &&& dpost == dpre
        },
        Instr::SetImm { x, nn } => {
            &&& keeps_all_but_pc_regs(pre, post)
            &&& post.v@ == pre.v@.update(x as int, nn)
            &&& post.pc == pre.pc + 2
            &&& dpost == dpre
        },
        Instr::AddImm { x, nn } => {
            &&& keeps_all_but_pc_regs(pre, post)
            &&& post.v@ == pre.v@.update(x as int, wrap_add_byte(pre.v@[x as int], nn))
            &&& post.pc == pre.pc + 2
            &&& dpost == dpre
        },
        Instr::Assign { x, y } => {
            &&& keeps_all_but_pc_regs(pre, post)
            &&& post.v@ == pre.v@.update(x as int, pre.v@[y as int])
            &&& post.pc == pre.pc + 2
            &&& dpost == dpre
        },
        Instr::Or { x, y } => {
            &&& keeps_all_but_pc_regs(pre, post)
            &&& post.v@ == pre.v@.update(x as int, pre.v@[x as int] | pre.v@[y as int])
            &&& post.pc == pre.pc + 2
            &&& dpost == dpre
        },
        Instr::And { x, y } => {
            &&& keeps_all_but_pc_regs(pre, post)
            &&& post.v@ == pre.v@.update(x as int, pre.v@[x as int] & pre.v@[y as int])
            &&& post.pc == pre.pc + 2
            &&& dpost == dpre
        },
        Instr::Xor { x, y } => {
            &&& keeps_all_but_pc_regs(pre, post)
            &&& post.v@ == pre.v@.update(x as int, pre.v@[x as int] ^ pre.v@[y as int])
            &&& post.pc == pre.pc + 2
            &&& dpost == dpre
        },
        Instr::AddReg { x, y } => {
            &&& keeps_all_but_pc_regs(pre, post)
            &&& post.v@ == pre.v@.update(
                x as int,
                wrap_add_byte(pre.v@[x as int], pre.v@[y as int]),
            ).update(15, if pre.v@[x as int] + pre.v@[y as int] > 255 { 1u8 } else { 0u8 })
            &&& post.pc == pre.pc + 2
            &&& dpost == dpre
        },
        Instr::SubReg { x, y } => {
            &&& keeps_all_but_pc_regs(pre, post)
            &&& post.v@ == pre.v@.update(
                x as int,
                wrap_sub_byte(pre.v@[x as int], pre.v@[y as int]),
            ).update(15, if pre.v@[x as int] >= pre.v@[y as int] { 1u8 } else { 0u8 })
            &&& post.pc == pre.pc + 2
            &&& dpost == dpre
        },
        Instr::ShiftRight { x } => {
            &&& keeps_all_but_pc_regs(pre, post)
            &&& post.v@ == pre.v@.update(15, pre.v@[x as int] & 1u8).update(
                x as int,
                pre.v@[x as int] >> 1u8,
            )
            &&& post.pc == pre.pc + 2
            &&& dpost == dpre
        },
        Instr::SubFrom { x, y } => {
            &&& keeps_all_but_pc_regs(pre, post)
            &&& post.v@ == pre.v@.update(
                x as int,
                wrap_sub_byte(pre.v@[y as int], pre.v@[x as int]),
            ).update(15, if pre.v@[y as int] >= pre.v@[x as int] { 1u8 } else { 0u8 })
            &&& post.pc == pre.pc + 2
            &&& dpost == dpre
        },
        Instr::ShiftLeft { x } => {
            &&& keeps_all_but_pc_regs(pre, post)
            &&& post.v@ == pre.v@.update(15, (pre.v@[x as int] & 0x80u8) >> 7u8).update(
                x as int,
                pre.v@[x as int] << 1u8,
            )
            &&& post.pc == pre.pc + 2
            &&& dpost == dpre
        },
        Instr::SkipNeReg { x, y } => {
            &&& keeps_all_but_pc(pre, post)
            &&& post.pc == pre.pc + (if pre.v@[x as int] != pre.v@[y as int] {
                4int
            } else {
                2int
            })
            &&& dpost == dpre
        },
        Instr::SetIndex { nnn } => {
            &&& keeps_all_but_pc_index(pre, post)
            &&& post.i == nnn
            &&& post.pc == pre.pc + 2
            &&& dpost == dpre
        },
        Instr::JumpV0 { nnn } => {
            &&& keeps_all_but_pc(pre, post)
            &&& post.pc == nnn + pre.v@[0]
            &&& dpost == dpre
        },
        Instr::Random { x, nn } => {
            &&& post.ram@ == pre.ram@
            &&& post.i == pre.i
            &&& post.stack@ == pre.stack@
            &&& post.v@ == pre.v@.update(x as int, rnd & nn)
            &&& post.pc == pre.pc + 2
            &&& dpost == dpre
        },
        Instr::Draw { x, y, n } => {
            &&& pre.i + n <= MEM_SIZE
            &&& keeps_all_but_pc_regs(pre, post)
            &&& {
                let rows = pre.ram@.subrange(pre.i as int, pre.i + n);
                let res = spec_blit(dpre, rows, pre.v@[x as int] as int, pre.v@[y as int] as int);
                &&& dpost == res.0
                &&& post.v@ == pre.v@.update(15, if res.1 { 1u8 } else { 0u8 })
            }
            &&& post.pc == pre.pc + 2
        },
        Instr::SkipKey { x } => {
            &&& keeps_all_but_pc(pre, post)
            &&& post.pc == pre.pc + (if key == Some(pre.v@[x as int]) { 4int } else { 2int })
            &&& dpost == dpre
        },
        Instr::SkipNoKey { x } => {
            &&& keeps_all_but_pc(pre, post)
            &&& post.pc == pre.pc + (if key == Some(pre.v@[x as int]) { 2int } else { 4int })
            &&& dpost == dpre
        },
        Instr::DelayGet { x } => {
            &&& keeps_all_but_pc(pre, post)
            &&& post.pc == pre.pc + 2
            &&& dpost == dpre
        },
        Instr::WaitKey { x } => {
            &&& keeps_all_but_pc(pre, post)
            &&& post.pc == pre.pc + 2
            &&& dpost == dpre
        },
        Instr::DelaySet { x } => {
            &&& keeps_all_but_pc(pre, post)
            &&& post.pc == pre.pc + 2
            &&& dpost == dpre
        },
        Instr::SoundSet { x } => {
            &&& keeps_all_but_pc(pre, post)
            &&& post.pc == pre.pc + 2
            &&& dpost == dpre
        },
        Instr::AddIndex { x } => {
            &&& keeps_all_but_pc_index(pre, post)
            &&& post.i == wrap_add_addr(pre.i, pre.v@[x as int] as usize)
            &&& post.pc == pre.pc + 2
            &&& dpost == dpre
        },
        Instr::FontAddr { x } => {
            &&& keeps_all_but_pc_index(pre, post)
            &&& post.i == pre.v@[x as int] * 5
            &&& post.pc == pre.pc + 2
            &&& dpost == dpre
        },
        Instr::StoreBcd { x } => {
            &&& pre.i + 3 <= MEM_SIZE
            &&& post.v@ == pre.v@
            &&& post.i == pre.i
            &&& post.stack@ == pre.stack@
            &&& post.rbg == pre.rbg
            &&& post.ram@ == pre.ram@.update(pre.i as int, (pre.v@[x as int] / 100) as u8).update(
                pre.i + 1,
                ((pre.v@[x as int] / 10) % 10) as u8,
            ).update(pre.i + 2, (pre.v@[x as int] % 10) as u8)
            &&& post.pc == pre.pc + 2
            &&& dpost == dpre
        },
        Instr::StoreRegs { x } => {
            &&& pre.i + x + 1 <= MEM_SIZE
            &&& post.v@ == pre.v@
            &&& post.stack@ == pre.stack@
            &&& post.rbg == pre.rbg
            &&& post.ram@.len() == MEM_SIZE
            &&& (forall|k: int| 0 <= k <= x ==> post.ram@[pre.i + k] == pre.v@[k])
            &&& (forall|k: int|
                0 <= k < MEM_SIZE && !(pre.i <= k < pre.i + x + 1) ==> post.ram@[k] == pre.ram@[k])
            &&& post.i == pre.i + x + 1
            &&& post.pc == pre.pc + 2
            &&& dpost == dpre
        },
        Instr::LoadRegs { x } => {
            &&& pre.i + x + 1 <= MEM_SIZE
            &&& post.ram@ == pre.ram@
            &&& post.stack@ == pre.stack@
            &&& post.rbg == pre.rbg
            &&& post.v@.len() == 16
            &&& (forall|k: int| 0 <= k <= x ==> post.v@[k] == pre.ram@[pre.i + k])
            &&& (forall|k: int| x < k < 16 ==> post.v@[k] == pre.v@[k])
            &&& post.i == pre.i + x + 1
            &&& post.pc == pre.pc + 2
            &&& dpost == dpre
        },
    }
}

impl Internals {
    /// One fetch-decode-execute cycle: read the two bytes at the
    /// program counter, decode them, perform the instruction on the
    /// machine and the display, and advance the program counter. `key`
    /// is the logical key the input collaborator currently reports
    /// held, if any. A fatal condition comes back as the matching
    /// error and leaves machine and display exactly as they were.
    pub fn run_next(&mut self, display: &mut DisplayBuffer, key: Option<u8>) -> (r: Result<
        (),
        Chip8Error,
    >)
        requires
            old(self).wf(),
            old(display).wf(),
        ensures
            final(self).wf(),
            final(display).wf(),
            match r {
                Ok(()) => step_err_spec(*old(self)) is None && (exists|rnd: u8|
                    step_ok_top(
                        *old(self),
                        old(display)@,
                        key,
                        rnd,
                        *final(self),
                        final(display)@,
                    )),
                Err(e) => Some(e) == step_err_spec(*old(self)) && *final(self) == *old(self)
                    && final(display)@ == old(display)@,
            },
    {
        if self.pc >= MEM_SIZE - 1 {
            return Err(Chip8Error::OutOfBounds);
        }
        let hi = match self.ram.read(self.pc) {
            Ok(b) => b,
            Err(e) => {
                return Err(e);
            },
        };
        let lo = match self.ram.read(self.pc + 1) {
            Ok(b) => b,
            Err(e) => {
                return Err(e);
            },
        };
        let instr = match decode(hi, lo) {
            Some(i) => i,
            None => {
                return Err(Chip8Error::IllegalInstruction(self.pc));
            },
        };
        proof {
            assert(spec_fetch(*old(self)) == Some((hi, lo)));
            assert(spec_instr(*old(self)) == Some(instr));
        }
        match instr {
            Instr::ClearScreen => {
                display.clear();
                self.pc = self.pc + 2;
                proof {
                    assert(display@ =~= Seq::new(GRID_AREA as nat, |k: int| false));
                    assert(step_ok_top(*old(self), old(display)@, key, 0u8, *self, display@));
                }
                Ok(())
            },
            Instr::Return => {
                if self.stack.len() == 0 {
                    return Err(Chip8Error::MissingReturnAddress);
                }
                match self.stack.pop() {
                    Some(addr) => {
                        self.pc = addr;
                        proof {
                            assert(step_ok_top(
                                *old(self),
                                old(display)@,
                                key,
                                0u8,
                                *self,
                                display@,
                            ));
                        }
                        Ok(())
                    },
                    None => Err(Chip8Error::MissingReturnAddress),
                }
            },
            Instr::Jump { nnn } => {
                self.pc = nnn;
                proof {
                    assert(step_ok_top(*old(self), old(display)@, key, 0u8, *self, display@));
                }
                Ok(())
            },
            Instr::Call { nnn } => {
                self.stack.push(self.pc + 2);
                self.pc = nnn;
                proof {
                    assert(step_ok_top(*old(self), old(display)@, key, 0u8, *self, display@));
                }
                Ok(())
            },
            Instr::SkipEqImm { x, nn } => {
                self.pc = self.pc + (if self.v[x] == nn {
                    4
                } else {
                    2
                });
                proof {
                    assert(step_ok_top(*old(self), old(display)@, key, 0u8, *self, display@));
                }
                Ok(())
            },
            Instr::SkipNeImm { x, nn } => {
                self.pc = self.pc + (if self.v[x] != nn {
                    4
                } else {
                    2
                });
                proof {
                    assert(step_ok_top(*old(self), old(display)@, key, 0u8, *self, display@));
                }
                Ok(())
            },
            Instr::SkipEqReg { x, y } => {
                self.pc = self.pc + (if self.v[x] == self.v[y] {
                    4
                } else {
                    2
                });
                proof {
                    assert(step_ok_top(*old(self), old(display)@, key, 0u8, *self, display@));
                }
                Ok(())
            },
            Instr::SetImm { x, nn } => {
                self.v.set(x, nn);
                self.pc = self.pc + 2;
                proof {
                    assert(step_ok_top(*old(self), old(display)@, key, 0u8, *self, display@));
                }
                Ok(())
            },
            Instr::AddImm { x, nn } => {
                let sum = self.v[x].wrapping_add(nn);
                self.v.set(x, sum);
                self.pc = self.pc + 2;
                proof {
                    assert(step_ok_top(*old(self), old(display)@, key, 0u8, *self, display@));
                }
                Ok(())
            },
            Instr::Assign { x, y } => {
                let vy = self.v[y];
                self.v.set(x, vy);
                self.pc = self.pc + 2;
                proof {
                    assert(step_ok_top(*old(self), old(display)@, key, 0u8, *self, display@));
                }
                Ok(())
            },
            Instr::Or { x, y } => {
                let r = self.v[x] | self.v[y];
                self.v.set(x, r);
                self.pc = self.pc + 2;
                proof {
                    assert(step_ok_top(*old(self), old(display)@, key, 0u8, *self, display@));
                }
                Ok(())
            },
            Instr::And { x, y } => {
                let r = self.v[x] & self.v[y];
                self.v.set(x, r);
                self.pc = self.pc + 2;
                proof {
                    assert(step_ok_top(*old(self), old(display)@, key, 0u8, *self, display@));
                }
                Ok(())
            },
            Instr::Xor { x, y } => {
                let r = self.v[x] ^ self.v[y];
                self.v.set(x, r);
                self.pc = self.pc + 2;
                proof {
                    assert(step_ok_top(*old(self), old(display)@, key, 0u8, *self, display@));
                }
                Ok(())
            },
            Instr::AddReg { x, y } => {
                let vx = self.v[x];
                let vy = self.v[y];
                let sum = vx.wrapping_add(vy);
                let carried = (vx as u16) + (vy as u16) > 255;
                self.v.set(x, sum);
                self.v.set(15, if carried {
                    1
                } else {
                    0
                });
                self.pc = self.pc + 2;
                proof {
                    assert(step_ok_top(*old(self), old(display)@, key, 0u8, *self, display@));
                }
                Ok(())
            },
            Instr::SubReg { x, y } => {
                let vx = self.v[x];
                let vy = self.v[y];
                let diff = vx.wrapping_sub(vy);
                self.v.set(x, diff);
                self.v.set(15, if vx >= vy {
                    1
                } else {
                    0
                });
                self.pc = self.pc + 2;
                proof {
                    assert(step_ok_top(*old(self), old(display)@, key, 0u8, *self, display@));
                }
                Ok(())
            },
            Instr::ShiftRight { x } => {
                let vx = self.v[x];
                self.v.set(15, vx & 1u8);
                self.v.set(x, vx >> 1u8);
                self.pc = self.pc + 2;
                proof {
                    assert(step_ok_top(*old(self), old(display)@, key, 0u8, *self, display@));
                }
                Ok(())
            },
            Instr::SubFrom { x, y } => {
                let vx = self.v[x];
                let vy = self.v[y];
                let diff = vy.wrapping_sub(vx);
                self.v.set(x, diff);
                self.v.set(15, if vy >= vx {
                    1
                } else {
                    0
                });
                self.pc = self.pc + 2;
                proof {
                    assert(step_ok_top(*old(self), old(display)@, key, 0u8, *self, display@));
                }
                Ok(())
            },
            Instr::ShiftLeft { x } => {
                let vx = self.v[x];
                self.v.set(15, (vx & 0x80u8) >> 7u8);
                self.v.set(x, vx << 1u8);
                self.pc = self.pc + 2;
                proof {
                    assert(step_ok_top(*old(self), old(display)@, key, 0u8, *self, display@));
                }
                Ok(())
            },
            Instr::SkipNeReg { x, y } => {
                self.pc = self.pc + (if self.v[x] != self.v[y] {
                    4
                } else {
                    2
                });
                proof {
                    assert(step_ok_top(*old(self), old(display)@, key, 0u8, *self, display@));
                }
                Ok(())
            },
            Instr::SetIndex { nnn } => {
                self.i = nnn;
                self.pc = self.pc + 2;
                proof {
                    assert(step_ok_top(*old(self), old(display)@, key, 0u8, *self, display@));
                }
                Ok(())
            },
            Instr::JumpV0 { nnn } => {
                self.pc = nnn + (self.v[0] as usize);
                proof {
                    assert(step_ok_top(*old(self), old(display)@, key, 0u8, *self, display@));
                }
                Ok(())
            },
            Instr::Random { x, nn } => {
                let drawn = self.rbg.random_byte();
                self.v.set(x, drawn & nn);
                self.pc = self.pc + 2;
                proof {
                    assert(step_ok_top(*old(self), old(display)@, key, drawn, *self, display@));
                }
                Ok(())
            },
            Instr::Draw { x, y, n } => {
                if self.i > MEM_SIZE || n > MEM_SIZE - self.i {
                    return Err(Chip8Error::OutOfBounds);
                }
                let mut rows: Vec<u8> = Vec::new();
                let mut k: usize = 0;
                while k < n
                    invariant
                        *self == *old(self),
                        old(self).wf(),
                        old(self).i + n <= MEM_SIZE,
                        k <= n,
                        rows@.len() == k as int,
                        forall|q: int| 0 <= q < k ==> rows@[q] == old(self).ram@[old(self).i + q],
                    decreases n - k,
                {
                    let b = match self.ram.read(self.i + k) {
                        Ok(b) => b,
                        Err(e) => {
                            return Err(e);
                        },
                    };
                    rows.push(b);
                    k = k + 1;
                }
                proof {
                    assert(rows@ =~= old(self).ram@.subrange(
                        old(self).i as int,
                        old(self).i + n,
                    ));
                }
                let vx = self.v[x];
                let vy = self.v[y];
                let erased = display.blit_sprite(&rows, vx, vy);
                self.v.set(15, if erased {
                    1
                } else {
                    0
                });
                self.pc = self.pc + 2;
                proof {
                    assert(step_ok_top(*old(self), old(display)@, key, 0u8, *self, display@));
                }
                Ok(())
            },
            Instr::SkipKey { x } => {
                let pressed = match key {
                    Some(code) => code == self.v[x],
                    None => false,
                };
                self.pc = self.pc + (if pressed {
                    4
                } else {
                    2
                });
                proof {
                    assert(step_ok_top(*old(self), old(display)@, key, 0u8, *self, display@));
                }
                Ok(())
            },
            Instr::SkipNoKey { x } => {
                let pressed = match key {
                    Some(code) => code == self.v[x],
                    None => false,
                };
                self.pc = self.pc + (if pressed {
                    2
                } else {
                    4
                });
                proof {
                    assert(step_ok_top(*old(self), old(display)@, key, 0u8, *self, display@));
                }
                Ok(())
            },
            Instr::DelayGet { x } => {
                self.pc = self.pc + 2;
                proof {
                    assert(step_ok_top(*old(self), old(display)@, key, 0u8, *self, display@));
                }
                Ok(())
            },
            Instr::WaitKey { x } => {
                self.pc = self.pc + 2;
                proof {
                    assert(step_ok_top(*old(self), old(display)@, key, 0u8, *self, display@));
                }
                Ok(())
            },
            Instr::DelaySet { x } => {
                self.pc = self.pc + 2;
                proof {
                    assert(step_ok_top(*old(self), old(display)@, key, 0u8, *self, display@));
                }
                Ok(())
            },
            Instr::SoundSet { x } => {
                self.pc = self.pc + 2;
                proof {
                    assert(step_ok_top(*old(self), old(display)@, key, 0u8, *self, display@));
                }
                Ok(())
            },
            Instr::AddIndex { x } => {
                self.i = self.i.wrapping_add(self.v[x] as usize);
                self.pc = self.pc + 2;
                proof {
                    assert(step_ok_top(*old(self), old(display)@, key, 0u8, *self, display@));
                }
                Ok(())
            },
            Instr::FontAddr { x } => {
                self.i = (self.v[x] as usize) * 5;
                self.pc = self.pc + 2;
                proof {
                    assert(step_ok_top(*old(self), old(display)@, key, 0u8, *self, display@));
                }
                Ok(())
            },
            Instr::StoreBcd { x } => {
                if self.i > MEM_SIZE || 3 > MEM_SIZE - self.i {
                    return Err(Chip8Error::OutOfBounds);
                }
                let vx = self.v[x];
                let hundreds = vx / 100u8;
                let tens = (vx / 10u8) % 10u8;
                let units = vx % 10u8;
                match self.ram.write(self.i, hundreds) {
                    Ok(()) => {},
                    Err(e) => {
                        return Err(e);
                    },
                }
                match self.ram.write(self.i + 1, tens) {
                    Ok(()) => {},
                    Err(e) => {
                        return Err(e);
                    },
                }
                match self.ram.write(self.i + 2, units) {
                    Ok(()) => {},
                    Err(e) => {
                        return Err(e);
                    },
                }
                self.pc = self.pc + 2;
                proof {
                    assert(step_ok_top(*old(self), old(display)@, key, 0u8, *self, display@));
                }
                Ok(())
            },
            Instr::StoreRegs { x } => {
                let upto = x + 1;
                if self.i > MEM_SIZE || upto > MEM_SIZE - self.i {
                    return Err(Chip8Error::OutOfBounds);
                }
                let mut k: usize = 0;
                while k < upto
                    invariant
                        self.v@ == old(self).v@,
                        self.pc == old(self).pc,
                        self.i == old(self).i,
                        self.stack@ == old(self).stack@,
                        self.rbg == old(self).rbg,
                        self.ram.wf(),
                        old(self).wf(),
                        upto == x + 1,
                        x < 16,
                        old(self).i + upto <= MEM_SIZE,
                        k <= upto,
                        forall|q: int| 0 <= q < k ==> self.ram@[old(self).i + q] == old(self).v@[q],
                        forall|q: int|
                            0 <= q < MEM_SIZE && !(old(self).i <= q < old(self).i + k)
                                ==> self.ram@[q] == old(self).ram@[q],
                    decreases upto - k,
                {
                    let val = self.v[k];
                    match self.ram.write(self.i + k, val) {
                        Ok(()) => {},
                        Err(e) => {
                            return Err(e);
                        },
                    }
                    k = k + 1;
                }
                self.i = self.i + upto;
                self.pc = self.pc + 2;
                proof {
                    assert(step_ok_top(*old(self), old(display)@, key, 0u8, *self, display@));
                }
                Ok(())
            },
            Instr::LoadRegs { x } => {
                let upto = x + 1;
                if self.i > MEM_SIZE || upto > MEM_SIZE - self.i {
                    return Err(Chip8Error::OutOfBounds);
                }
                let mut k: usize = 0;
                while k < upto
                    invariant
                        self.ram@ == old(self).ram@,
                        self.pc == old(self).pc,
                        self.i == old(self).i,
                        self.stack@ == old(self).stack@,
                        self.rbg == old(self).rbg,
                        self.ram.wf(),
                        old(self).wf(),
                        upto == x + 1,
                        x < 16,
                        old(self).i + upto <= MEM_SIZE,
                        k <= upto,
                        self.v@.len() == 16,
                        forall|q: int| 0 <= q < k ==> self.v@[q] == old(self).ram@[old(self).i + q],
                        forall|q: int| k <= q < 16 ==> self.v@[q] == old(self).v@[q],
                    decreases upto - k,
                {
                    let b = match self.ram.read(self.i + k) {
                        Ok(b) => b,
                        Err(e) => {
                            return Err(e);
                        },
                    };
                    self.v.set(k, b);
                    k = k + 1;
                }
                self.i = self.i + upto;
                self.pc = self.pc + 2;
                proof {
                    assert(step_ok_top(*old(self), old(display)@, key, 0u8, *self, display@));
                }
                Ok(())
            },
        }
    }
}

/// `step_ok` at whatever instruction stands at the program counter.
pub open spec fn step_ok_top(
    pre: Internals,
    dpre: Seq<bool>,
    key: Option<u8>,
    rnd: u8,
    post: Internals,
    dpost: Seq<bool>,
) -> bool {
    match spec_instr(pre) {
        Some(instr) => step_ok(pre, dpre, key, rnd, instr, post, dpost),
        None => false,
    }
}

} // verus!
