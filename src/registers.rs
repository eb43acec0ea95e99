use vstd::prelude::*;

verus! {

/// Condition flag: the last value written was positive.
pub const FL_POS: u16 = 1;

/// Condition flag: the last value written was zero.
pub const FL_ZRO: u16 = 2;

/// Condition flag: the last value written was negative.
pub const FL_NEG: u16 = 4;

/// The condition flag that a written value sets, by its sign as a 16-bit
/// two's-complement number.
pub open spec fn flag_of(v: u16) -> u16 {
    if v == 0 {
        FL_ZRO
    } else if v >= 0x8000 {
        FL_NEG
    } else {
        FL_POS
    }
}

/// The register file as a mathematical value.
pub struct RegisterFile {
    pub regs: Seq<u16>,
    pub pc: u16,
    pub cond: u16,
}

/// Eight general purpose registers, the program counter and the condition
/// flags.
pub struct Registers {
    pub regs: [u16; 8],
    pub pc: u16,
    pub cond: u16,
}

impl View for Registers {
    type V = RegisterFile;

    open spec fn view(&self) -> RegisterFile {
        RegisterFile { regs: self.regs@, pc: self.pc, cond: self.cond }
    }
}

impl Registers {
    /// All registers, the program counter and the flags start at zero.
    pub fn new() -> (r: Registers)
        ensures
            r@.regs == Seq::new(8, |i: int| 0u16),
            r@.pc == 0,
            r@.cond == 0,
    {
        let r = Registers { regs: [0u16; 8], pc: 0, cond: 0 };
        assert(r@.regs =~= Seq::new(8, |i: int| 0u16));
        r
    }

    pub fn get(&self, index: u16) -> (r: u16)
        requires
            index < 8,
        ensures
            r == self@.regs[index as int],
    {
        self.regs[index as usize]
    }

    pub fn update(&mut self, index: u16, value: u16)
        requires
            index < 8,
        ensures
            final(self)@ == (RegisterFile {
                regs: old(self)@.regs.update(index as int, value),
                ..old(self)@
            }),
    {
        self.regs[index as usize] = value;
    }

    /// Sets the condition flags from the sign of register `index`.
    pub fn update_r_cond_register(&mut self, index: u16)
        requires
            index < 8,
        ensures
            final(self)@ == (RegisterFile { cond: flag_of(old(self)@.regs[index as int]), ..old(self)@ }),
    {
        let v = self.regs[index as usize];
        if v == 0 {
            self.cond = FL_ZRO;
        } else if v >= 0x8000 {
            self.cond = FL_NEG;
        } else {
            self.cond = FL_POS;
        }
    }
}

} // verus!
