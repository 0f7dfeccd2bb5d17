//! The CPU engine: memory, registers, program counter and call stack, with the
//! fetch-decode-execute loop and one handler per recognized opcode.

use vstd::prelude::*;
use crate::codec::spec_compose;
use crate::codec::compose;

verus! {

/// Number of addressable bytes of memory.
pub const MEMORY_SIZE: usize = 4096;

/// Number of general-purpose 8-bit registers.
pub const NUM_REGISTERS: usize = 16;

/// Capacity of the call stack, in saved return addresses.
pub const STACK_SIZE: usize = 16;

/// Index of the register that reports arithmetic carry/borrow.
pub const FLAG_REGISTER: usize = 15;

/// A fatal condition that terminates execution. None is recoverable within the
/// engine; the halt sentinel is normal termination, not a fault.
#[derive(Clone, Copy, Debug, PartialEq, Eq, Structural)]
pub enum Fault {
    /// The decoded instruction matches no recognized opcode pattern.
    UnimplementedOpcode,
    /// A call was attempted with the call stack already at capacity.
    StackOverflow,
    /// A return was attempted with an empty call stack.
    StackUnderflow,
    /// The program counter fell outside the memory buffer at a fetch.
    OutOfBoundsMemoryAccess,
}

/// The outcome of one successful fetch-decode-execute step.
#[derive(Clone, Copy, Debug, PartialEq, Eq, Structural)]
pub enum Status {
    /// The instruction executed and the engine can take another step.
    Running,
    /// The halt sentinel was fetched; the engine is now idle.
    Halted,
}

/// A decoded instruction: the ephemeral result of matching the four nibbles of a
/// fetched word against the recognized opcode patterns. It parametrizes exactly
/// one dispatch action and has no life beyond one loop iteration.
#[derive(Clone, Copy, Debug, PartialEq, Eq, Structural)]
pub enum Instr {
    /// Word 0x0000: terminate the loop normally.
    Halt,
    /// Word 0x00EE: return from a subroutine.
    Ret,
    /// Pattern 2nnn: call the subroutine at address nnn.
    Call(u16),
    /// Pattern 8xy1: bitwise OR of registers x and y into register x.
    Or(u8, u8),
    /// Pattern 8xy2: bitwise AND of registers x and y into register x.
    And(u8, u8),
    /// Pattern 8xy4: add register y to register x with a carry flag.
    Add(u8, u8),
    /// Pattern 8xy5: subtract register y from register x with a borrow flag.
    Sub(u8, u8),
    /// Any other pattern: a fatal condition, distinct from a halt.
    Unimplemented,
}

/// High nibble of the word's high byte: selects the opcode class.
pub open spec fn nibble_c(word: u16) -> u8 {
    ((word >> 12) & 0xf) as u8
}

/// Low nibble of the word's high byte: the first register operand.
pub open spec fn nibble_x(word: u16) -> u8 {
    ((word >> 8) & 0xf) as u8
}

/// High nibble of the word's low byte: the second register operand.
pub open spec fn nibble_y(word: u16) -> u8 {
    ((word >> 4) & 0xf) as u8
}

/// Low nibble of the word's low byte: selects within an opcode class.
pub open spec fn nibble_d(word: u16) -> u8 {
    (word & 0xf) as u8
}

/// The 12-bit address field of a control-flow instruction.
pub open spec fn addr_nnn(word: u16) -> u16 {
    word & 0xfff
}

/// Each nibble is a 4-bit value, so register operands decoded from a word are
/// always valid register indices, and the address field is always in memory bounds.
pub proof fn lemma_fields_in_range(word: u16)
    ensures
        nibble_c(word) < 16,
        nibble_x(word) < 16,
        nibble_y(word) < 16,
        nibble_d(word) < 16,
        addr_nnn(word) < 4096,
{
    assert((((word >> 12) & 0xf) as u8) < 16 && (((word >> 8) & 0xf) as u8) < 16
        && (((word >> 4) & 0xf) as u8) < 16 && ((word & 0xf) as u8) < 16
        && (word & 0xfff) < 4096) by (bit_vector);
}

/// The decoding table of the engine: matches the four nibbles of a fetched word
/// against the recognized opcode patterns, first match first. All patterns are
/// mutually exclusive; the halt sentinel is tested before everything else.
pub open spec fn spec_decode(word: u16) -> Instr {
    let c = nibble_c(word);
    let x = nibble_x(word);
    let y = nibble_y(word);
    let d = nibble_d(word);
    if c == 0 && x == 0 && y == 0 && d == 0 {
        Instr::Halt
    } else if c == 0 && x == 0 && y == 0xe && d == 0xe {
        Instr::Ret
    } else if c == 2 {
        Instr::Call(addr_nnn(word))
    } else if c == 8 && d == 1 {
        Instr::Or(x, y)
    } else if c == 8 && d == 2 {
        Instr::And(x, y)
    } else if c == 8 && d == 4 {
        Instr::Add(x, y)
    } else if c == 8 && d == 5 {
        Instr::Sub(x, y)
    } else {
        Instr::Unimplemented
    }
}

/// Extracts the four 4-bit fields of a fetched word and matches them against the
/// recognized opcode patterns.
pub fn decode(op: u16) -> (instr: Instr)
    ensures
        instr == spec_decode(op),
{
    let c: u8 = ((op >> 12) & 0xf) as u8;
    let x: u8 = ((op >> 8) & 0xf) as u8;
    let y: u8 = ((op >> 4) & 0xf) as u8;
    let d: u8 = (op & 0xf) as u8;
    if c == 0 && x == 0 && y == 0 && d == 0 {
        Instr::Halt
    } else if c == 0 && x == 0 && y == 0xe && d == 0xe {
        Instr::Ret
    } else if c == 2 {
        Instr::Call(op & 0xfff)
    } else if c == 8 && d == 1 {
        Instr::Or(x, y)
    } else if c == 8 && d == 2 {
        Instr::And(x, y)
    } else if c == 8 && d == 4 {
        Instr::Add(x, y)
    } else if c == 8 && d == 5 {
        Instr::Sub(x, y)
    } else {
        Instr::Unimplemented
    }
}

/// The 8-bit sum of two register values, wrapped modulo 256.
pub open spec fn wrapped_sum(a: u8, b: u8) -> u8 {
    ((a + b) % 256) as u8
}

/// 1 when the 8-bit addition overflows, 0 otherwise.
pub open spec fn carry_flag(a: u8, b: u8) -> u8 {
    if a + b > 255 {
        1u8
    } else {
        0u8
    }
}

/// The 8-bit difference of two register values, wrapped modulo 256.
pub open spec fn wrapped_diff(a: u8, b: u8) -> u8 {
    if a >= b {
        (a - b) as u8
    } else {
        (a - b + 256) as u8
    }
}

/// 1 when the true subtraction result would be negative, 0 otherwise.
pub open spec fn borrow_flag(a: u8, b: u8) -> u8 {
    if a < b {
        1u8
    } else {
        0u8
    }
}

/// The register bank after a bitwise OR of registers x and y into register x.
pub open spec fn regs_after_or(regs: Seq<u8>, x: u8, y: u8) -> Seq<u8> {
    regs.update(x as int, regs[x as int] | regs[y as int])
}

/// The register bank after a bitwise AND of registers x and y into register x.
pub open spec fn regs_after_and(regs: Seq<u8>, x: u8, y: u8) -> Seq<u8> {
    regs.update(x as int, regs[x as int] & regs[y as int])
}

/// The register bank after an add with carry: the wrapped sum lands in register x,
/// then the flag register is unconditionally overwritten with the carry.
pub open spec fn regs_after_add(regs: Seq<u8>, x: u8, y: u8) -> Seq<u8> {
    regs.update(x as int, wrapped_sum(regs[x as int], regs[y as int])).update(
        FLAG_REGISTER as int,
        carry_flag(regs[x as int], regs[y as int]),
    )
}

/// The register bank after a subtract with borrow: the wrapped difference lands in
/// register x, then the flag register is unconditionally overwritten with the borrow.
pub open spec fn regs_after_sub(regs: Seq<u8>, x: u8, y: u8) -> Seq<u8> {
    regs.update(x as int, wrapped_diff(regs[x as int], regs[y as int])).update(
        FLAG_REGISTER as int,
        borrow_flag(regs[x as int], regs[y as int]),
    )
}

/// The big-endian 16-bit word spelled by two consecutive memory bytes.
pub open spec fn word_at(mem: Seq<u8>, p: int) -> u16
    recommends
        0 <= p,
        p + 1 < mem.len(),
{
    spec_compose(mem[p], mem[p + 1])
}

/// The program counter advanced past exactly one instruction; everything else
/// untouched.
pub open spec fn fetch_advanced(pre: CPU, post: CPU) -> bool {
    &&& post.position_in_memory == pre.position_in_memory + 2
    &&& post.memory == pre.memory
    &&& post.registers == pre.registers
    &&& post.stack == pre.stack
    &&& post.stack_pointer == pre.stack_pointer
}

/// One arithmetic/logic step: the counter advanced past the instruction, the
/// register bank rewritten to `regs`, memory and stack untouched.
pub open spec fn arith_step(pre: CPU, post: CPU, regs: Seq<u8>) -> bool {
    &&& post.position_in_memory == pre.position_in_memory + 2
    &&& post.memory == pre.memory
    &&& post.registers@ == regs
    &&& post.stack == pre.stack
    &&& post.stack_pointer == pre.stack_pointer
}

/// The complete transition relation of one fetch-decode-execute step: given the
/// state before the step, it pins down the state after the step and the step's
/// outcome. A fetch past the end of memory faults without touching the state;
/// otherwise the fetched word decides, through the decoding table, which handler
/// runs and how the state changes.
pub open spec fn step_rel(pre: CPU, post: CPU, r: Result<Status, Fault>) -> bool {
    if pre.position_in_memory + 2 > MEMORY_SIZE {
        &&& post == pre
        &&& r == Err::<Status, Fault>(Fault::OutOfBoundsMemoryAccess)
    } else {
        let w = word_at(pre.memory@, pre.position_in_memory as int);
        match spec_decode(w) {
            Instr::Halt => fetch_advanced(pre, post) && r == Ok::<Status, Fault>(Status::Halted),
            Instr::Ret => if pre.stack_pointer == 0 {
                fetch_advanced(pre, post) && r == Err::<Status, Fault>(Fault::StackUnderflow)
            } else {
                &&& post.position_in_memory == pre.stack@[pre.stack_pointer - 1]
                &&& post.memory == pre.memory
                &&& post.registers == pre.registers
                &&& post.stack == pre.stack
                &&& post.stack_pointer == pre.stack_pointer - 1
                &&& r == Ok::<Status, Fault>(Status::Running)
            },
            Instr::Call(nnn) => if pre.stack_pointer >= STACK_SIZE {
                fetch_advanced(pre, post) && r == Err::<Status, Fault>(Fault::StackOverflow)
            } else {
                &&& post.position_in_memory == nnn
                &&& post.memory == pre.memory
                &&& post.registers == pre.registers
                &&& post.stack@ == pre.stack@.update(
                    pre.stack_pointer as int,
                    (pre.position_in_memory + 2) as u16,
                )
                &&& post.stack_pointer == pre.stack_pointer + 1
                &&& r == Ok::<Status, Fault>(Status::Running)
            },
            Instr::Or(x, y) => arith_step(pre, post, regs_after_or(pre.registers@, x, y))
                && r == Ok::<Status, Fault>(Status::Running),
            Instr::And(x, y) => arith_step(pre, post, regs_after_and(pre.registers@, x, y))
                && r == Ok::<Status, Fault>(Status::Running),
            Instr::Add(x, y) => arith_step(pre, post, regs_after_add(pre.registers@, x, y))
                && r == Ok::<Status, Fault>(Status::Running),
            Instr::Sub(x, y) => arith_step(pre, post, regs_after_sub(pre.registers@, x, y))
                && r == Ok::<Status, Fault>(Status::Running),
            Instr::Unimplemented => fetch_advanced(pre, post)
                && r == Err::<Status, Fault>(Fault::UnimplementedOpcode),
        }
    }
}

/// After a subtract, the flag register reads 1 exactly when the minuend register
/// held less than the subtrahend register before the operation, and 0 otherwise;
/// the stored difference is the true difference wrapped modulo 256, so it always
/// fits the register width.
pub proof fn lemma_sub_flag(regs: Seq<u8>, x: u8, y: u8)
    requires
        regs.len() == NUM_REGISTERS,
        (x as usize) < NUM_REGISTERS,
        (y as usize) < NUM_REGISTERS,
    ensures
        regs_after_sub(regs, x, y)[FLAG_REGISTER as int] == borrow_flag(
            regs[x as int],
            regs[y as int],
        ),
        borrow_flag(regs[x as int], regs[y as int]) == 1 <==> regs[x as int] < regs[y as int],
        wrapped_diff(regs[x as int], regs[y as int]) == (regs[x as int] - regs[y as int]) % 256,
        wrapped_diff(regs[x as int], regs[y as int]) < 256,
{
}

/// The halt sentinel: fetching the all-zero word terminates execution normally,
/// mutating no register, no memory and no stack — it is not a fault.
pub proof fn lemma_halt_sentinel(pre: CPU, post: CPU, r: Result<Status, Fault>)
    requires
        step_rel(pre, post, r),
        pre.position_in_memory + 2 <= MEMORY_SIZE,
        word_at(pre.memory@, pre.position_in_memory as int) == 0,
    ensures
        r == Ok::<Status, Fault>(Status::Halted),
        post.registers == pre.registers,
        post.memory == pre.memory,
        post.stack == pre.stack,
        post.stack_pointer == pre.stack_pointer,
{
    assert(nibble_c(0) == 0 && nibble_x(0) == 0 && nibble_y(0) == 0 && nibble_d(0) == 0)
        by (bit_vector);
}

/// A fetched word whose nibble pattern stands in no row of the decoding table
/// raises the unimplemented-opcode fault — never a silent no-op, and never a halt.
pub proof fn lemma_unimplemented_opcode_faults(pre: CPU, post: CPU, r: Result<Status, Fault>)
    requires
        step_rel(pre, post, r),
        pre.position_in_memory + 2 <= MEMORY_SIZE,
        spec_decode(word_at(pre.memory@, pre.position_in_memory as int)) is Unimplemented,
    ensures
        r == Err::<Status, Fault>(Fault::UnimplementedOpcode),
        post.registers == pre.registers,
        post.memory == pre.memory,
        post.stack == pre.stack,
        post.stack_pointer == pre.stack_pointer,
{
}

/// `b` is reachable from `a` by exactly `n` steps, each of which executed a
/// recognized non-halt instruction (outcome `Ok(Running)`).
pub open spec fn runs_to(a: CPU, b: CPU, n: nat) -> bool
    decreases n,
{
    if n == 0 {
        a == b
    } else {
        exists|m: CPU| runs_to(a, m, (n - 1) as nat) && step_rel(m, b, Ok(Status::Running))
    }
}

/// Extending a chain of running steps by one more running step.
pub proof fn lemma_runs_to_snoc(a: CPU, m: CPU, b: CPU, n: nat)
    requires
        runs_to(a, m, n),
        step_rel(m, b, Ok(Status::Running)),
    ensures
        runs_to(a, b, n + 1),
{
    let k: nat = n + 1;
    assert((k - 1) as nat == n);
    assert(runs_to(a, m, (k - 1) as nat));
    assert(runs_to(a, b, k));
}

/// The outcome of run-to-completion, as the outcome of its final step: normal
/// completion means the last step fetched the halt sentinel.
pub open spec fn final_outcome(r: Result<(), Fault>) -> Result<Status, Fault> {
    match r {
        Ok(()) => Ok(Status::Halted),
        Err(f) => Err(f),
    }
}

/// The termination measure of the fetch-decode-execute loop, one component per
/// call-stack level, most significant first. Below the stack pointer it counts
/// the memory left beyond the saved return address; at the stack pointer, the
/// memory left beyond the program counter; above it, nothing. A plain instruction
/// shrinks the component at the stack pointer by two; a call shrinks it by two and
/// moves the activity one level deeper; a return zeroes it and leaves every lower
/// level unchanged. So the 17 components decrease lexicographically on every
/// running step, which bounds execution: this instruction subset has no backward
/// jump outside calls.
pub open spec fn level_measure(s: CPU, i: int) -> int {
    if i < s.stack_pointer {
        0x10000 - s.stack@[i]
    } else if i == s.stack_pointer {
        0x10000 - s.position_in_memory
    } else {
        0
    }
}

/// On every step that keeps the engine running, the measure strictly decreases at
/// the pre-state's stack-pointer level while every lower level is unchanged.
pub proof fn lemma_step_running_decreases(pre: CPU, post: CPU)
    requires
        pre.wf(),
        step_rel(pre, post, Ok(Status::Running)),
    ensures
        level_measure(post, pre.stack_pointer as int) < level_measure(
            pre,
            pre.stack_pointer as int,
        ),
        forall|i: int|
            0 <= i < pre.stack_pointer ==> level_measure(post, i) == level_measure(pre, i),
{
    let sp = pre.stack_pointer as int;
    let w = word_at(pre.memory@, pre.position_in_memory as int);
    match spec_decode(w) {
        Instr::Ret => {
            assert(level_measure(post, sp) == 0);
            assert(level_measure(pre, sp) >= 1);
            assert forall|i: int| 0 <= i < sp implies level_measure(post, i) == level_measure(
                pre,
                i,
            ) by {
                if i == sp - 1 {
                    assert(post.position_in_memory == pre.stack@[sp - 1]);
                }
            }
        },
        Instr::Call(_) => {
            assert(level_measure(post, sp) == 0x10000 - post.stack@[sp]);
            assert(post.stack@[sp] == (pre.position_in_memory + 2) as u16);
            assert(pre.position_in_memory + 2 <= MEMORY_SIZE);
            assert(level_measure(post, sp) == 0x10000 - pre.position_in_memory - 2);
        },
        Instr::Or(_, _) => {},
        Instr::And(_, _) => {},
        Instr::Add(_, _) => {},
        Instr::Sub(_, _) => {},
        Instr::Halt => {
            assert(false);
        },
        Instr::Unimplemented => {
            assert(false);
        },
    }
}

/// A CHIP-8-style virtual CPU: a fixed memory image, sixteen 8-bit registers,
/// a program counter and a bounded stack of return addresses.
pub struct CPU {
    /// The memory image; read-only during execution of the implemented opcodes.
    pub memory: [u8; MEMORY_SIZE],
    /// The program counter: the memory offset of the next instruction to fetch.
    pub position_in_memory: usize,
    /// The general-purpose registers; index 15 doubles as the carry/borrow flag.
    pub registers: [u8; NUM_REGISTERS],
    /// Saved return addresses of calls still in progress.
    pub stack: [u16; STACK_SIZE],
    /// Next free stack slot; the number of calls still in progress.
    pub stack_pointer: usize,
}

impl CPU {
    /// Well-formedness: the stack pointer stays within the stack's capacity, and
    /// the program counter fits the 16-bit addresses that the stack records.
    pub open spec fn wf(self) -> bool {
        &&& self.stack_pointer <= STACK_SIZE
        &&& self.position_in_memory <= u16::MAX
    }

    /// Initializes a CPU with zeroed memory, registers and stack, the program
    /// counter at offset 0 and an empty call stack.
    pub fn new() -> (cpu: CPU)
        ensures
            cpu.wf(),
            cpu.position_in_memory == 0,
            cpu.stack_pointer == 0,
            forall|i: int| 0 <= i < MEMORY_SIZE ==> cpu.memory@[i] == 0u8,
            forall|i: int| 0 <= i < NUM_REGISTERS ==> cpu.registers@[i] == 0u8,
            forall|i: int| 0 <= i < STACK_SIZE ==> cpu.stack@[i] == 0u16,
    {
        CPU {
            memory: [0; MEMORY_SIZE],
            registers: [0; NUM_REGISTERS],
            position_in_memory: 0,
            stack: [0; STACK_SIZE],
            stack_pointer: 0,
        }
    }

    /// Fetches the instruction word at the program counter: reads two consecutive
    /// bytes, combines them big-endian into a 16-bit word, and advances the counter
    /// by 2. Fetching past the end of memory is a fatal out-of-bounds condition and
    /// leaves the state untouched.
    pub fn read_op(&mut self) -> (r: Result<u16, Fault>)
        requires
            old(self).wf(),
        ensures
            final(self).wf(),
            match r {
                Ok(op) => {
                    &&& old(self).position_in_memory + 2 <= MEMORY_SIZE
                    &&& op == word_at(old(self).memory@, old(self).position_in_memory as int)
                    &&& fetch_advanced(*old(self), *final(self))
                },
                Err(f) => {
                    &&& old(self).position_in_memory + 2 > MEMORY_SIZE
                    &&& f == Fault::OutOfBoundsMemoryAccess
                    &&& *final(self) == *old(self)
                },
            },
    {
        let p: usize = self.position_in_memory;
        if p + 2 > MEMORY_SIZE {
            return Err(Fault::OutOfBoundsMemoryAccess);
        }
        let op_byte1: u8 = self.memory[p];
        let op_byte2: u8 = self.memory[p + 1];
        self.position_in_memory = p + 2;
        Ok(compose(op_byte1, op_byte2))
    }

    /// Bitwise OR of the values in registers x and y, stored in register x.
    /// The flag register keeps whatever value it previously held.
    pub fn or_xy(&mut self, x: u8, y: u8)
        requires
            (x as usize) < NUM_REGISTERS,
            (y as usize) < NUM_REGISTERS,
        ensures
            final(self).registers@ == regs_after_or(old(self).registers@, x, y),
            final(self).memory == old(self).memory,
            final(self).position_in_memory == old(self).position_in_memory,
            final(self).stack == old(self).stack,
            final(self).stack_pointer == old(self).stack_pointer,
    {
        let arg1: u8 = self.registers[x as usize];
        let arg2: u8 = self.registers[y as usize];
        self.registers[x as usize] = arg1 | arg2;
    }

    /// Bitwise AND of the values in registers x and y, stored in register x.
    /// The flag register keeps whatever value it previously held.
    pub fn and_xy(&mut self, x: u8, y: u8)
        requires
            (x as usize) < NUM_REGISTERS,
            (y as usize) < NUM_REGISTERS,
        ensures
            final(self).registers@ == regs_after_and(old(self).registers@, x, y),
            final(self).memory == old(self).memory,
            final(self).position_in_memory == old(self).position_in_memory,
            final(self).stack == old(self).stack,
            final(self).stack_pointer == old(self).stack_pointer,
    {
        let arg1: u8 = self.registers[x as usize];
        let arg2: u8 = self.registers[y as usize];
        self.registers[x as usize] = arg1 & arg2;
    }

    /// Adds the value of register y to register x, storing the sum wrapped modulo
    /// 256, then sets the flag register to 1 on overflow and to 0 otherwise.
    pub fn add_xy(&mut self, x: u8, y: u8)
        requires
            (x as usize) < NUM_REGISTERS,
            (y as usize) < NUM_REGISTERS,
        ensures
            final(self).registers@ == regs_after_add(old(self).registers@, x, y),
            final(self).memory == old(self).memory,
            final(self).position_in_memory == old(self).position_in_memory,
            final(self).stack == old(self).stack,
            final(self).stack_pointer == old(self).stack_pointer,
    {
        let arg1: u8 = self.registers[x as usize];
        let arg2: u8 = self.registers[y as usize];
        let sum: u16 = arg1 as u16 + arg2 as u16;
        let value: u8 = (sum % 256) as u8;
        let flag: u8 = if sum > 255 {
            1
        } else {
            0
        };
        self.registers[x as usize] = value;
        self.registers[FLAG_REGISTER] = flag;
    }

    /// Subtracts the value of register y from register x, storing the difference
    /// wrapped modulo 256, then sets the flag register to 1 on underflow (the true
    /// difference would be negative) and to 0 otherwise.
    pub fn sub_xy(&mut self, x: u8, y: u8)
        requires
            (x as usize) < NUM_REGISTERS,
            (y as usize) < NUM_REGISTERS,
        ensures
            final(self).registers@ == regs_after_sub(old(self).registers@, x, y),
            final(self).memory == old(self).memory,
            final(self).position_in_memory == old(self).position_in_memory,
            final(self).stack == old(self).stack,
            final(self).stack_pointer == old(self).stack_pointer,
    {
        let arg1: u8 = self.registers[x as usize];
        let arg2: u8 = self.registers[y as usize];
        let value: u8 = if arg1 >= arg2 {
            arg1 - arg2
        } else {
            ((arg1 as u16 + 256) - arg2 as u16) as u8
        };
        let flag: u8 = if arg1 < arg2 {
            1
        } else {
            0
        };
        self.registers[x as usize] = value;
        self.registers[FLAG_REGISTER] = flag;
    }

    /// Calls the subroutine at `addr`: pushes the current program counter (already
    /// advanced past the call instruction) onto the stack, increments the stack
    /// pointer and jumps to `addr`. With the stack at capacity this is a fatal
    /// stack overflow and the state is untouched.
    pub fn call(&mut self, addr: u16) -> (r: Result<(), Fault>)
        requires
            old(self).wf(),
        ensures
            final(self).wf(),
            if old(self).stack_pointer < STACK_SIZE {
                &&& r == Ok::<(), Fault>(())
                &&& final(self).position_in_memory == addr
                &&& final(self).memory == old(self).memory
                &&& final(self).registers == old(self).registers
                &&& final(self).stack@ == old(self).stack@.update(
                    old(self).stack_pointer as int,
                    old(self).position_in_memory as u16,
                )
                &&& final(self).stack_pointer == old(self).stack_pointer + 1
            } else {
                &&& r == Err::<(), Fault>(Fault::StackOverflow)
                &&& *final(self) == *old(self)
            },
    {
        let sp: usize = self.stack_pointer;
        if sp >= STACK_SIZE {
            return Err(Fault::StackOverflow);
        }
        self.stack[sp] = self.position_in_memory as u16;
        self.stack_pointer = sp + 1;
        self.position_in_memory = addr as usize;
        Ok(())
    }

    /// Returns from a subroutine: decrements the stack pointer and jumps to the
    /// popped return address. With an empty stack this is a fatal stack underflow
    /// and the state is untouched.
    pub fn ret(&mut self) -> (r: Result<(), Fault>)
        requires
            old(self).wf(),
        ensures
            final(self).wf(),
            if old(self).stack_pointer == 0 {
                &&& r == Err::<(), Fault>(Fault::StackUnderflow)
                &&& *final(self) == *old(self)
            } else {
                &&& r == Ok::<(), Fault>(())
                &&& final(self).position_in_memory == old(self).stack@[old(
                    self,
                ).stack_pointer - 1]
                &&& final(self).memory == old(self).memory
                &&& final(self).registers == old(self).registers
                &&& final(self).stack == old(self).stack
                &&& final(self).stack_pointer == old(self).stack_pointer - 1
            },
    {
        if self.stack_pointer == 0 {
            return Err(Fault::StackUnderflow);
        }
        self.stack_pointer = self.stack_pointer - 1;
        let call_addr: u16 = self.stack[self.stack_pointer];
        self.position_in_memory = call_addr as usize;
        Ok(())
    }

    /// Executes exactly one fetch-decode-execute iteration: fetches the word at the
    /// program counter, decodes it and dispatches to the matching handler. Returns
    /// `Ok(Halted)` for the halt sentinel, `Ok(Running)` after any other recognized
    /// instruction, and the fault otherwise, as `step_rel` pins down.
    pub fn step(&mut self) -> (r: Result<Status, Fault>)
        requires
            old(self).wf(),
        ensures
            final(self).wf(),
            step_rel(*old(self), *final(self), r),
    {
        let op: u16 = match self.read_op() {
            Ok(op) => op,
            Err(f) => {
                return Err(f);
            },
        };
        proof {
            lemma_fields_in_range(op);
        }
        match decode(op) {
            Instr::Halt => Ok(Status::Halted),
            Instr::Ret => match self.ret() {
                Ok(()) => Ok(Status::Running),
                Err(f) => Err(f),
            },
            Instr::Call(nnn) => match self.call(nnn) {
                Ok(()) => Ok(Status::Running),
                Err(f) => Err(f),
            },
            Instr::Or(x, y) => {
                self.or_xy(x, y);
                Ok(Status::Running)
            },
            Instr::And(x, y) => {
                self.and_xy(x, y);
                Ok(Status::Running)
            },
            Instr::Add(x, y) => {
                self.add_xy(x, y);
                Ok(Status::Running)
            },
            Instr::Sub(x, y) => {
                self.sub_xy(x, y);
                Ok(Status::Running)
            },
            Instr::Unimplemented => Err(Fault::UnimplementedOpcode),
        }
    }

    /// Runs the fetch-decode-execute loop to completion: steps until the halt
    /// sentinel terminates execution normally (`Ok`), or a fatal condition stops it
    /// (`Err`). The final state is reached from the initial one by some number of
    /// running steps followed by the halting or faulting step, so every
    /// intermediate state satisfies the per-step contract; memory is never written.
    /// The loop needs no fuel: with only forward arithmetic/logic instructions,
    /// calls and returns, execution provably terminates.
    pub fn run(&mut self) -> (r: Result<(), Fault>)
        requires
            old(self).wf(),
        ensures
            final(self).wf(),
            final(self).memory == old(self).memory,
            exists|mid: CPU, n: nat|
                #![trigger runs_to(*old(self), mid, n)]
                runs_to(*old(self), mid, n) && step_rel(mid, *final(self), final_outcome(r)),
    {
        let ghost start: CPU = *self;
        let ghost mut n: nat = 0;
        #[verifier::loop_isolation(false)]
        loop
            invariant
                self.wf(),
                self.memory == start.memory,
                runs_to(start, *self, n),
            decreases
                level_measure(*self, 0),
                level_measure(*self, 1),
                level_measure(*self, 2),
                level_measure(*self, 3),
                level_measure(*self, 4),
                level_measure(*self, 5),
                level_measure(*self, 6),
                level_measure(*self, 7),
                level_measure(*self, 8),
                level_measure(*self, 9),
                level_measure(*self, 10),
                level_measure(*self, 11),
                level_measure(*self, 12),
                level_measure(*self, 13),
                level_measure(*self, 14),
                level_measure(*self, 15),
                level_measure(*self, 16),
        {
            let ghost prev: CPU = *self;
            match self.step() {
                Ok(Status::Running) => {
                    proof {
                        lemma_runs_to_snoc(start, prev, *self, n);
                        n = n + 1;
                        lemma_step_running_decreases(prev, *self);
                    }
                },
                Ok(Status::Halted) => {
                    return Ok(());
                },
                Err(f) => {
                    return Err(f);
                },
            }
        }
    }
}

} // verus!
