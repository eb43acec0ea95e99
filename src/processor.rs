use crate::registers::{flag_of, RegisterFile, Registers, FL_NEG, FL_POS, FL_ZRO};
use crate::utils::{lemma_sign_extend_laws, sign_extend, sign_extended, signed_field};
use vstd::arithmetic::power2::{lemma2_to64, pow2};
use vstd::prelude::*;

verus! {

/// The number of words in memory: every 16-bit address is valid.
pub const MEMORY_SIZE: usize = 0x10000;

/// The sixteen operations, selected by the top four bits of an instruction.
pub enum OpCode {
    /// conditional branch
    BR,
    /// addition
    ADD,
    /// PC-relative load
    LD,
    /// PC-relative store
    ST,
    /// subroutine call
    JSR,
    /// bitwise and
    AND,
    /// base-relative load
    LDR,
    /// base-relative store
    STR,
    /// return from interrupt (no effect here)
    RTI,
    /// bitwise complement
    NOT,
    /// indirect load
    LDI,
    /// indirect store
    STI,
    /// jump to a register
    JMP,
    /// reserved (no effect here)
    RES,
    /// load effective address
    LEA,
    /// operating system service
    TRAP,
}

/// What the processor asks of its caller after one instruction.
pub enum ExecutionResult {
    Continue,
    /// The operating system must serve this trap vector.
    Trap(u8),
}

/// The operation that an opcode number names.
pub open spec fn opcode_of(n: u16) -> OpCode {
    if n == 0 {
        OpCode::BR
    } else if n == 1 {
        OpCode::ADD
    } else if n == 2 {
        OpCode::LD
    } else if n == 3 {
        OpCode::ST
    } else if n == 4 {
        OpCode::JSR
    } else if n == 5 {
        OpCode::AND
    } else if n == 6 {
        OpCode::LDR
    } else if n == 7 {
        OpCode::STR
    } else if n == 8 {
        OpCode::RTI
    } else if n == 9 {
        OpCode::NOT
    } else if n == 10 {
        OpCode::LDI
    } else if n == 11 {
        OpCode::STI
    } else if n == 12 {
        OpCode::JMP
    } else if n == 13 {
        OpCode::RES
    } else if n == 14 {
        OpCode::LEA
    } else {
        OpCode::TRAP
    }
}

pub open spec fn opcode_field(instr: u16) -> u16 {
    instr >> 12
}

/// Destination register; the source register of the stores.
pub open spec fn dr_field(instr: u16) -> u16 {
    (instr >> 9) & 7
}

/// First source register; the base register of JMP, JSRR, LDR and STR.
pub open spec fn sr1_field(instr: u16) -> u16 {
    (instr >> 6) & 7
}

pub open spec fn sr2_field(instr: u16) -> u16 {
    instr & 7
}

/// Whether ADD and AND take their second operand from the instruction.
pub open spec fn imm_mode(instr: u16) -> bool {
    (instr >> 5) & 1 == 1
}

/// The condition mask of BR: negative, zero and positive, high bit first.
pub open spec fn nzp_field(instr: u16) -> u16 {
    (instr >> 9) & 7
}

/// Whether JSR jumps by an offset (otherwise to a base register).
pub open spec fn jsr_pc_relative(instr: u16) -> bool {
    (instr >> 11) & 1 == 1
}

pub open spec fn trap_vector_field(instr: u16) -> u8 {
    (instr & 0xFF) as u8
}

pub open spec fn imm5(instr: u16) -> u16 {
    sign_extended(instr & 0x1F, 5)
}

pub open spec fn offset6(instr: u16) -> u16 {
    sign_extended(instr & 0x3F, 6)
}

pub open spec fn offset9(instr: u16) -> u16 {
    sign_extended(instr & 0x1FF, 9)
}

pub open spec fn offset11(instr: u16) -> u16 {
    sign_extended(instr & 0x7FF, 11)
}

/// Writes register `d` and sets the flags from the value written.
pub open spec fn write_flagged(s: RegisterFile, d: u16, v: u16) -> RegisterFile {
    RegisterFile { regs: s.regs.update(d as int, v), cond: flag_of(v), ..s }
}

pub open spec fn with_pc(s: RegisterFile, pc: u16) -> RegisterFile {
    RegisterFile { pc: pc, ..s }
}

/// The second operand of ADD and AND: an immediate or a register.
pub open spec fn operand2(s: RegisterFile, instr: u16) -> u16 {
    if imm_mode(instr) {
        imm5(instr)
    } else {
        s.regs[sr2_field(instr) as int]
    }
}

/// The address after the current instruction plus a 9-bit offset.
pub open spec fn pc_relative(s: RegisterFile, instr: u16) -> u16 {
    s.pc.wrapping_add(offset9(instr))
}

/// A base register plus a 6-bit offset.
pub open spec fn base_relative(s: RegisterFile, instr: u16) -> u16 {
    s.regs[sr1_field(instr) as int].wrapping_add(offset6(instr))
}

pub open spec fn add_spec(s: RegisterFile, instr: u16) -> RegisterFile {
    write_flagged(s, dr_field(instr), s.regs[sr1_field(instr) as int].wrapping_add(operand2(s, instr)))
}

pub open spec fn and_spec(s: RegisterFile, instr: u16) -> RegisterFile {
    write_flagged(s, dr_field(instr), s.regs[sr1_field(instr) as int] & operand2(s, instr))
}

pub open spec fn not_spec(s: RegisterFile, instr: u16) -> RegisterFile {
    write_flagged(s, dr_field(instr), !s.regs[sr1_field(instr) as int])
}

/// BR is taken when the flags meet the instruction's mask.
pub open spec fn br_taken(s: RegisterFile, instr: u16) -> bool {
    s.cond & nzp_field(instr) != 0
}

pub open spec fn br_spec(s: RegisterFile, instr: u16) -> RegisterFile {
    if br_taken(s, instr) {
        with_pc(s, pc_relative(s, instr))
    } else {
        s
    }
}

pub open spec fn jmp_spec(s: RegisterFile, instr: u16) -> RegisterFile {
    with_pc(s, s.regs[sr1_field(instr) as int])
}

/// JSR and JSRR: the return address goes to register 7 first, then the
/// program counter moves.
pub open spec fn jsr_spec(s: RegisterFile, instr: u16) -> RegisterFile {
    let linked = RegisterFile { regs: s.regs.update(7, s.pc), ..s };
    if jsr_pc_relative(instr) {
        with_pc(linked, s.pc.wrapping_add(offset11(instr)))
    } else {
        with_pc(linked, linked.regs[sr1_field(instr) as int])
    }
}

pub open spec fn ld_spec(s: RegisterFile, mem: Seq<u16>, instr: u16) -> RegisterFile {
    write_flagged(s, dr_field(instr), mem[pc_relative(s, instr) as int])
}

/// LDI: the word at the PC-relative address is the address of the value.
pub open spec fn ldi_spec(s: RegisterFile, mem: Seq<u16>, instr: u16) -> RegisterFile {
    write_flagged(s, dr_field(instr), mem[mem[pc_relative(s, instr) as int] as int])
}

pub open spec fn ldr_spec(s: RegisterFile, mem: Seq<u16>, instr: u16) -> RegisterFile {
    write_flagged(s, dr_field(instr), mem[base_relative(s, instr) as int])
}

pub open spec fn lea_spec(s: RegisterFile, instr: u16) -> RegisterFile {
    write_flagged(s, dr_field(instr), pc_relative(s, instr))
}

pub open spec fn st_spec(s: RegisterFile, mem: Seq<u16>, instr: u16) -> Seq<u16> {
    mem.update(pc_relative(s, instr) as int, s.regs[dr_field(instr) as int])
}

pub open spec fn sti_spec(s: RegisterFile, mem: Seq<u16>, instr: u16) -> Seq<u16> {
    mem.update(mem[pc_relative(s, instr) as int] as int, s.regs[dr_field(instr) as int])
}

pub open spec fn str_spec(s: RegisterFile, mem: Seq<u16>, instr: u16) -> Seq<u16> {
    mem.update(base_relative(s, instr) as int, s.regs[dr_field(instr) as int])
}

/// The register file after one instruction, with `s.pc` already past it.
pub open spec fn next_registers(s: RegisterFile, mem: Seq<u16>, instr: u16) -> RegisterFile {
    let op = opcode_field(instr);
    if op == 0 {
        br_spec(s, instr)
    } else if op == 1 {
        add_spec(s, instr)
    } else if op == 2 {
        ld_spec(s, mem, instr)
    } else if op == 4 {
        jsr_spec(s, instr)
    } else if op == 5 {
        and_spec(s, instr)
    } else if op == 6 {
        ldr_spec(s, mem, instr)
    } else if op == 9 {
        not_spec(s, instr)
    } else if op == 10 {
        ldi_spec(s, mem, instr)
    } else if op == 12 {
        jmp_spec(s, instr)
    } else if op == 14 {
        lea_spec(s, instr)
    } else {
        s
    }
}

/// Memory after one instruction: only the three stores write.
pub open spec fn next_memory(s: RegisterFile, mem: Seq<u16>, instr: u16) -> Seq<u16> {
    let op = opcode_field(instr);
    if op == 3 {
        st_spec(s, mem, instr)
    } else if op == 7 {
        str_spec(s, mem, instr)
    } else if op == 11 {
        sti_spec(s, mem, instr)
    } else {
        mem
    }
}

pub open spec fn outcome(instr: u16) -> ExecutionResult {
    if opcode_field(instr) == 15 {
        ExecutionResult::Trap(trap_vector_field(instr))
    } else {
        ExecutionResult::Continue
    }
}

/// Bounds of the instruction fields.
proof fn lemma_fields(instr: u16)
    ensures
        opcode_field(instr) < 16,
        dr_field(instr) < 8,
        sr1_field(instr) < 8,
        sr2_field(instr) < 8,
        imm_mode(instr) <==> (instr >> 5) & 1 != 0,
        (instr & 0x1F) < pow2(5),
        (instr & 0x3F) < pow2(6),
        (instr & 0x1FF) < pow2(9),
        (instr & 0x7FF) < pow2(11),
{
    lemma2_to64();
    assert(instr >> 12 < 16) by (bit_vector);
    assert((instr >> 9) & 7 < 8) by (bit_vector);
    assert((instr >> 6) & 7 < 8) by (bit_vector);
    assert(instr & 7 < 8) by (bit_vector);
    assert(((instr >> 5) & 1 == 1) <==> (instr >> 5) & 1 != 0) by (bit_vector);
    assert(instr & 0x1F < 32) by (bit_vector);
    assert(instr & 0x3F < 64) by (bit_vector);
    assert(instr & 0x1FF < 512) by (bit_vector);
    assert(instr & 0x7FF < 2048) by (bit_vector);
}

/// ADD and AND, in either addressing mode, leave in the destination the sum
/// modulo 2^16 (an immediate counting as its signed value) or the bitwise and
/// of their operands, set the flags from the sign of that value, and change
/// nothing else.
pub proof fn lemma_add_and_results(s: RegisterFile, mem: Seq<u16>, instr: u16)
    requires
        s.regs.len() == 8,
        opcode_field(instr) == 1 || opcode_field(instr) == 5,
    ensures
        ({
            let t = next_registers(s, mem, instr);
            let v = t.regs[dr_field(instr) as int];
            let a = s.regs[sr1_field(instr) as int];
            &&& opcode_field(instr) == 1 ==> v as int == (a as int + operand2(s, instr) as int)
                % 0x10000
            &&& opcode_field(instr) == 1 && imm_mode(instr) ==> v as int == (a as int
                + signed_field(instr & 0x1F, 5)) % 0x10000
            &&& opcode_field(instr) == 5 ==> v == a & operand2(s, instr)
            &&& t.cond == flag_of(v)
            &&& v == 0 ==> t.cond == FL_ZRO
            &&& v >= 0x8000 ==> t.cond == FL_NEG
            &&& 0 < v < 0x8000 ==> t.cond == FL_POS
            &&& t.regs.len() == 8
            &&& forall|i: int| 0 <= i < 8 && i != dr_field(instr) ==> t.regs[i] == s.regs[i]
            &&& t.pc == s.pc
            &&& next_memory(s, mem, instr) == mem
        }),
{
    lemma_fields(instr);
    lemma_sign_extend_laws(instr & 0x1F, 5);
    lemma2_to64();
}

/// BR moves the program counter to its target exactly when the flags meet
/// its mask, and changes nothing else: a zero mask never branches, and a full
/// mask branches whenever the flags hold one of the three states.
pub proof fn lemma_branch(s: RegisterFile, mem: Seq<u16>, instr: u16)
    requires
        opcode_field(instr) == 0,
    ensures
        next_registers(s, mem, instr) == (if s.cond & nzp_field(instr) != 0 {
            with_pc(s, pc_relative(s, instr))
        } else {
            s
        }),
        nzp_field(instr) == 0 ==> next_registers(s, mem, instr) == s,
        nzp_field(instr) == 7 && (s.cond == FL_POS || s.cond == FL_ZRO || s.cond == FL_NEG)
            ==> next_registers(s, mem, instr) == with_pc(s, pc_relative(s, instr)),
        next_memory(s, mem, instr) == mem,
{
    let c = s.cond;
    assert(c & 0 == 0) by (bit_vector);
    assert((c == 1 || c == 2 || c == 4) ==> c & 7 != 0) by (bit_vector);
}

/// JSR and JSRR leave the address of the following instruction in register 7
/// whichever way they address their target, and touch neither the flags, the
/// other registers nor memory.
pub proof fn lemma_call_links(s: RegisterFile, mem: Seq<u16>, instr: u16)
    requires
        s.regs.len() == 8,
        opcode_field(instr) == 4,
    ensures
        ({
            let t = next_registers(s, mem, instr);
            &&& t.regs[7] == s.pc
            &&& jsr_pc_relative(instr) ==> t.pc == s.pc.wrapping_add(offset11(instr))
            &&& !jsr_pc_relative(instr) ==> t.pc == s.regs.update(7, s.pc)[sr1_field(
                instr,
            ) as int]
            &&& t.regs.len() == 8
            &&& forall|i: int| 0 <= i < 7 ==> t.regs[i] == s.regs[i]
            &&& t.cond == s.cond
            &&& next_memory(s, mem, instr) == mem
        }),
{
}

/// LDI reads memory twice: the word at the PC-relative address is the
/// address of the value loaded. Memory is left as it was.
pub proof fn lemma_load_indirect(s: RegisterFile, mem: Seq<u16>, instr: u16)
    requires
        opcode_field(instr) == 10,
    ensures
        next_registers(s, mem, instr) == write_flagged(
            s,
            dr_field(instr),
            mem[mem[pc_relative(s, instr) as int] as int],
        ),
        next_memory(s, mem, instr) == mem,
{
}

/// A TRAP instruction changes neither registers nor memory: it only hands
/// its vector to the operating system.
pub proof fn lemma_trap_is_pure(s: RegisterFile, mem: Seq<u16>, instr: u16)
    requires
        opcode_field(instr) == 15,
    ensures
        next_registers(s, mem, instr) == s,
        next_memory(s, mem, instr) == mem,
        outcome(instr) == ExecutionResult::Trap(trap_vector_field(instr)),
{
}

/// The flags follow the register writes: the seven instructions that write a
/// destination register set them from the value written, and every other
/// instruction leaves them as they were.
pub proof fn lemma_flags_follow_writes(s: RegisterFile, mem: Seq<u16>, instr: u16)
    requires
        s.regs.len() == 8,
    ensures
        ({
            let op = opcode_field(instr);
            let t = next_registers(s, mem, instr);
            &&& (op == 1 || op == 2 || op == 5 || op == 6 || op == 9 || op == 10 || op == 14)
                ==> t.cond == flag_of(t.regs[dr_field(instr) as int])
            &&& !(op == 1 || op == 2 || op == 5 || op == 6 || op == 9 || op == 10 || op == 14)
                ==> t.cond == s.cond
        }),
{
    lemma_fields(instr);
}

impl OpCode {
    /// Decodes the top four bits of an instruction; every value names an
    /// operation.
    pub fn get_op_code(val: &u16) -> (r: Option<OpCode>)
        ensures
            r == Some(opcode_of(opcode_field(*val))),
    {
        proof {
            lemma_fields(*val);
        }
        match *val >> 12 {
            0 => Some(OpCode::BR),
            1 => Some(OpCode::ADD),
            2 => Some(OpCode::LD),
            3 => Some(OpCode::ST),
            4 => Some(OpCode::JSR),
            5 => Some(OpCode::AND),
            6 => Some(OpCode::LDR),
            7 => Some(OpCode::STR),
            8 => Some(OpCode::RTI),
            9 => Some(OpCode::NOT),
            10 => Some(OpCode::LDI),
            11 => Some(OpCode::STI),
            12 => Some(OpCode::JMP),
            13 => Some(OpCode::RES),
            14 => Some(OpCode::LEA),
            15 => Some(OpCode::TRAP),
            _ => None,
        }
    }
}

/// The instruction executor, owning the register file.
pub struct Processor {
    pub registers: Registers,
}

impl Processor {
    pub fn new() -> (r: Processor)
        ensures
            r.registers@.regs == Seq::new(8, |i: int| 0u16),
            r.registers@.pc == 0,
            r.registers@.cond == 0,
    {
        Processor { registers: Registers::new() }
    }

    /// Executes one instruction whose fetch has already advanced the program
    /// counter. RTI and RES have no effect; TRAP only hands its vector back.
    pub fn execute(&mut self, instr: u16, memory: &mut [u16]) -> (r: ExecutionResult)
        requires
            old(memory)@.len() == MEMORY_SIZE,
        ensures
            final(self).registers@ == next_registers(old(self).registers@, old(memory)@, instr),
            final(memory)@ == next_memory(old(self).registers@, old(memory)@, instr),
            r == outcome(instr),
    {
        proof {
            lemma_fields(instr);
        }
        let op = match OpCode::get_op_code(&instr) {
            Some(op) => op,
            None => return ExecutionResult::Continue,
        };
        match op {
            OpCode::ADD => self.add(instr),
            OpCode::AND => self.and(instr),
            OpCode::NOT => self.not(instr),
            OpCode::BR => self.br(instr),
            OpCode::JMP => self.jmp(instr),
            OpCode::JSR => self.jsr(instr),
            OpCode::LD => self.ld(instr, memory),
            OpCode::LDI => self.ldi(instr, memory),
            OpCode::LDR => self.ldr(instr, memory),
            OpCode::LEA => self.lea(instr),
            OpCode::ST => self.st(instr, memory),
            OpCode::STI => self.sti(instr, memory),
            OpCode::STR => self.str(instr, memory),
            OpCode::TRAP => return self.trap(instr),
            _ => {},
        }
        ExecutionResult::Continue
    }

    fn operand2(&self, instr: u16) -> (r: u16)
        ensures
            r == operand2(self.registers@, instr),
    {
        proof {
            lemma_fields(instr);
        }
        if (instr >> 5) & 0x1 == 0 {
            self.registers.get(instr & 0x7)
        } else {
            sign_extend(instr & 0x1F, 5)
        }
    }

    fn pc_relative(&self, instr: u16) -> (r: u16)
        ensures
            r == pc_relative(self.registers@, instr),
    {
        proof {
            lemma_fields(instr);
        }
        self.registers.pc.wrapping_add(sign_extend(instr & 0x1FF, 9))
    }

    fn base_relative(&self, instr: u16) -> (r: u16)
        ensures
            r == base_relative(self.registers@, instr),
    {
        proof {
            lemma_fields(instr);
        }
        let base = self.registers.get((instr >> 6) & 0x7);
        base.wrapping_add(sign_extend(instr & 0x3F, 6))
    }

    /// Writes the destination register of `instr` and sets the flags.
    fn write_dest(&mut self, instr: u16, value: u16)
        ensures
            final(self).registers@ == write_flagged(old(self).registers@, dr_field(instr), value),
    {
        proof {
            lemma_fields(instr);
        }
        let dr = (instr >> 9) & 0x7;
        self.registers.update(dr, value);
        self.registers.update_r_cond_register(dr);
    }

    fn add(&mut self, instr: u16)
        ensures
            final(self).registers@ == add_spec(old(self).registers@, instr),
    {
        proof {
            lemma_fields(instr);
        }
        let val1 = self.registers.get((instr >> 6) & 0x7);
        let val2 = self.operand2(instr);
        self.write_dest(instr, val1.wrapping_add(val2));
    }

    fn and(&mut self, instr: u16)
        ensures
            final(self).registers@ == and_spec(old(self).registers@, instr),
    {
        proof {
            lemma_fields(instr);
        }
        let val1 = self.registers.get((instr >> 6) & 0x7);
        let val2 = self.operand2(instr);
        self.write_dest(instr, val1 & val2);
    }

    fn not(&mut self, instr: u16)
        ensures
            final(self).registers@ == not_spec(old(self).registers@, instr),
    {
        proof {
            lemma_fields(instr);
        }
        let val = !self.registers.get((instr >> 6) & 0x7);
        self.write_dest(instr, val);
    }

    fn br(&mut self, instr: u16)
        ensures
            final(self).registers@ == br_spec(old(self).registers@, instr),
    {
        let mask = (instr >> 9) & 0x7;
        if self.registers.cond & mask != 0 {
            self.registers.pc = self.pc_relative(instr);
        }
    }

    fn jmp(&mut self, instr: u16)
        ensures
            final(self).registers@ == jmp_spec(old(self).registers@, instr),
    {
        proof {
            lemma_fields(instr);
        }
        self.registers.pc = self.registers.get((instr >> 6) & 0x7);
    }

    fn jsr(&mut self, instr: u16)
        ensures
            final(self).registers@ == jsr_spec(old(self).registers@, instr),
    {
        proof {
            lemma_fields(instr);
        }
        let pc = self.registers.pc;
        self.registers.update(7, pc);
        if (instr >> 11) & 0x1 == 1 {
            self.registers.pc = pc.wrapping_add(sign_extend(instr & 0x7FF, 11));
        } else {
            self.registers.pc = self.registers.get((instr >> 6) & 0x7);
        }
    }

    fn ld(&mut self, instr: u16, memory: &[u16])
        requires
            memory@.len() == MEMORY_SIZE,
        ensures
            final(self).registers@ == ld_spec(old(self).registers@, memory@, instr),
    {
        let addr = self.pc_relative(instr);
        let val = memory[addr as usize];
        self.write_dest(instr, val);
    }

    fn ldi(&mut self, instr: u16, memory: &[u16])
        requires
            memory@.len() == MEMORY_SIZE,
        ensures
            final(self).registers@ == ldi_spec(old(self).registers@, memory@, instr),
    {
        let pointer = self.pc_relative(instr);
        let addr = memory[pointer as usize];
        let val = memory[addr as usize];
        self.write_dest(instr, val);
    }

    fn ldr(&mut self, instr: u16, memory: &[u16])
        requires
            memory@.len() == MEMORY_SIZE,
        ensures
            final(self).registers@ == ldr_spec(old(self).registers@, memory@, instr),
    {
        let addr = self.base_relative(instr);
        let val = memory[addr as usize];
        self.write_dest(instr, val);
    }

    fn lea(&mut self, instr: u16)
        ensures
            final(self).registers@ == lea_spec(old(self).registers@, instr),
    {
        let val = self.pc_relative(instr);
        self.write_dest(instr, val);
    }

    fn st(&self, instr: u16, memory: &mut [u16])
        requires
            old(memory)@.len() == MEMORY_SIZE,
        ensures
            final(memory)@ == st_spec(self.registers@, old(memory)@, instr),
    {
        proof {
            lemma_fields(instr);
        }
        let addr = self.pc_relative(instr);
        memory[addr as usize] = self.registers.get((instr >> 9) & 0x7);
    }

    fn sti(&self, instr: u16, memory: &mut [u16])
        requires
            old(memory)@.len() == MEMORY_SIZE,
        ensures
            final(memory)@ == sti_spec(self.registers@, old(memory)@, instr),
    {
        proof {
            lemma_fields(instr);
        }
        let pointer = self.pc_relative(instr);
        let addr = memory[pointer as usize];
        memory[addr as usize] = self.registers.get((instr >> 9) & 0x7);
    }

    fn str(&self, instr: u16, memory: &mut [u16])
        requires
            old(memory)@.len() == MEMORY_SIZE,
        ensures
            final(memory)@ == str_spec(self.registers@, old(memory)@, instr),
    {
        proof {
            lemma_fields(instr);
        }
        let addr = self.base_relative(instr);
        memory[addr as usize] = self.registers.get((instr >> 9) & 0x7);
    }

    fn trap(&self, instr: u16) -> (r: ExecutionResult)
        ensures
            r == ExecutionResult::Trap(trap_vector_field(instr)),
    {
        ExecutionResult::Trap((instr & 0xFF) as u8)
    }
}

} // verus!
