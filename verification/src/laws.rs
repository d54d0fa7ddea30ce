use vstd::prelude::*;

use crate::Chip8Error;
use crate::MEM_SIZE;
use crate::decode::Instr;
use crate::machine::Internals;
use crate::machine::spec_instr;
use crate::machine::step_err_spec;
use crate::machine::step_ok;

verus! {

/// Law: the wrapping immediate add sets no flag. For every register
/// `x`, adding 1 to a register holding 0xFF wraps it to 0x00, and the
/// flag register keeps its value whenever it is not the target itself.
pub proof fn lemma_add_imm_wraps(
    pre: Internals,
    dpre: Seq<bool>,
    key: Option<u8>,
    rnd: u8,
    x: usize,
    post: Internals,
    dpost: Seq<bool>,
)
    requires
        pre.wf(),
        x < 16,
        pre.v@[x as int] == 0xFFu8,
        step_ok(pre, dpre, key, rnd, Instr::AddImm { x, nn: 0x01u8 }, post, dpost),
    ensures
        post.v@[x as int] == 0x00u8,
        x != 15 ==> post.v@[15] == pre.v@[15],
{
}

/// Law: add-with-carry. With `V[x] = 0xFF` and `V[y] = 0x01` the sum
/// wraps to 0x00 and the flag is set; with `V[x] = V[y] = 0x01` the
/// sum is 0x02 and the flag is clear. The flag claims hold for every
/// target; the sum claims only where the target is not the flag
/// register itself, whose later flag write wins.
pub proof fn lemma_add_reg_carry(
    pre: Internals,
    dpre: Seq<bool>,
    key: Option<u8>,
    rnd: u8,
    x: usize,
    y: usize,
    post: Internals,
    dpost: Seq<bool>,
)
    requires
        pre.wf(),
        x < 16,
        y < 16,
        step_ok(pre, dpre, key, rnd, Instr::AddReg { x, y }, post, dpost),
    ensures
        pre.v@[x as int] == 0xFFu8 && pre.v@[y as int] == 0x01u8 ==> post.v@[15] == 1u8 && (x
            != 15 ==> post.v@[x as int] == 0x00u8),
        pre.v@[x as int] == 0x01u8 && pre.v@[y as int] == 0x01u8 ==> post.v@[15] == 0u8 && (x
            != 15 ==> post.v@[x as int] == 0x02u8),
{
}

/// Law: subtract's borrow flag has inverted polarity. `V[x] - V[y]`
/// with `V[x] = 0x01, V[y] = 0x02` borrows, so the flag is 0; with
/// `V[x] = 0x02, V[y] = 0x01` nothing borrows, so the flag is 1.
pub proof fn lemma_sub_reg_borrow(
    pre: Internals,
    dpre: Seq<bool>,
    key: Option<u8>,
    rnd: u8,
    x: usize,
    y: usize,
    post: Internals,
    dpost: Seq<bool>,
)
    requires
        pre.wf(),
        x < 16,
        y < 16,
        step_ok(pre, dpre, key, rnd, Instr::SubReg { x, y }, post, dpost),
    ensures
        pre.v@[x as int] == 0x01u8 && pre.v@[y as int] == 0x02u8 ==> post.v@[15] == 0u8,
        pre.v@[x as int] == 0x02u8 && pre.v@[y as int] == 0x01u8 ==> post.v@[15] == 1u8,
{
}

/// Law: the right shift moves the low bit into the flag. A register
/// holding 0b0000_0011 becomes 0b0000_0001 and the flag becomes 1.
pub proof fn lemma_shift_right(
    pre: Internals,
    dpre: Seq<bool>,
    key: Option<u8>,
    rnd: u8,
    x: usize,
    post: Internals,
    dpost: Seq<bool>,
)
    requires
        pre.wf(),
        x < 16,
        pre.v@[x as int] == 0x03u8,
        step_ok(pre, dpre, key, rnd, Instr::ShiftRight { x }, post, dpost),
    ensures
        post.v@[x as int] == 0x01u8,
        post.v@[15] == 1u8,
{
    assert((0x03u8 & 1u8) == 1u8) by (bit_vector);
    assert((0x03u8 >> 1u8) == 0x01u8) by (bit_vector);
}

/// Law: the binary-coded-decimal store decomposes into decimal digits:
/// a register holding 123 stores 1, 2, 3 at `I`, `I+1`, `I+2`.
pub proof fn lemma_bcd_digits(
    pre: Internals,
    dpre: Seq<bool>,
    key: Option<u8>,
    rnd: u8,
    x: usize,
    post: Internals,
    dpost: Seq<bool>,
)
    requires
        pre.wf(),
        x < 16,
        pre.v@[x as int] == 123u8,
        step_ok(pre, dpre, key, rnd, Instr::StoreBcd { x }, post, dpost),
    ensures
        post.ram@[pre.i as int] == 1u8,
        post.ram@[pre.i + 1] == 2u8,
        post.ram@[pre.i + 2] == 3u8,
{
}

/// Law: subroutine round trip. A call pushes the address of the
/// instruction after the call site; any later state that still has
/// that entry on top of its stack returns to `call_site + 2`, with the
/// stack restored to its height before the call.
pub proof fn lemma_call_return_round_trip(
    s1: Internals,
    d1: Seq<bool>,
    k1: Option<u8>,
    r1: u8,
    nnn: usize,
    s2: Internals,
    d2: Seq<bool>,
    s3: Internals,
    d3: Seq<bool>,
    k3: Option<u8>,
    r3: u8,
    s4: Internals,
    d4: Seq<bool>,
)
    requires
        s1.pc + 1 < MEM_SIZE,
        step_ok(s1, d1, k1, r1, Instr::Call { nnn }, s2, d2),
        s3.stack@ == s2.stack@,
        step_ok(s3, d3, k3, r3, Instr::Return, s4, d4),
    ensures
        s4.pc == s1.pc + 2,
        s4.stack@ == s1.stack@,
{
    assert(s3.stack@.last() == (s1.pc + 2) as usize);
    assert(s4.stack@ =~= s1.stack@);
}

/// Law: a return with an empty call stack is the missing-return-address
/// fault, not a step; `run_next` then leaves the machine, its program
/// counter included, untouched.
pub proof fn lemma_return_on_empty_stack(m: Internals)
    requires
        m.pc + 1 < MEM_SIZE,
        spec_instr(m) == Some(Instr::Return),
        m.stack@.len() == 0,
    ensures
        step_err_spec(m) == Some(Chip8Error::MissingReturnAddress),
{
}

/// Law: two bytes outside the opcode table are the illegal-instruction
/// fault, carrying the program counter they were fetched from;
/// `run_next` then leaves machine and display untouched.
pub proof fn lemma_illegal_instruction(m: Internals)
    requires
        m.pc + 1 < MEM_SIZE,
        spec_instr(m) is None,
    ensures
        step_err_spec(m) == Some(Chip8Error::IllegalInstruction(m.pc)),
{
}

} // verus!
