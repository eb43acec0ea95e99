use crate::processor::MEMORY_SIZE;
use crate::registers::{RegisterFile, Registers};
use vstd::prelude::*;

verus! {

/// Trap vector: read one character into register 0, without echo.
pub const TRAP_GETC: u8 = 0x20;

/// Trap vector: write the low byte of register 0.
pub const TRAP_OUT: u8 = 0x21;

/// Trap vector: write the string of one character per word at register 0.
pub const TRAP_PUTS: u8 = 0x22;

/// Trap vector: prompt, read one character into register 0 and echo it.
pub const TRAP_IN: u8 = 0x23;

/// Trap vector: write the string of two characters per word at register 0.
pub const TRAP_PUTSP: u8 = 0x24;

/// Trap vector: stop the machine.
pub const TRAP_HALT: u8 = 0x25;

/// What the machine needs from its host at one step. Every character is one
/// byte, to be written as the character with that code.
pub enum Event {
    /// Nothing: the next instruction may be fetched.
    Continue,
    /// Write these characters, then flush.
    Output(Vec<u8>),
    /// Write `prompt`, read one byte and hand it back to the machine; then
    /// write that byte if `echo` is set.
    Input { prompt: Vec<u8>, echo: bool },
    /// The program stopped: exit with success.
    Halt,
    /// The program asked for an unknown trap vector: report it and exit with
    /// failure.
    Fail(u8),
}

/// An `Event` as a mathematical value.
pub enum EventView {
    Continue,
    Output(Seq<u8>),
    Input { prompt: Seq<u8>, echo: bool },
    Halt,
    Fail(u8),
}

impl View for Event {
    type V = EventView;

    open spec fn view(&self) -> EventView {
        match self {
            Event::Continue => EventView::Continue,
            Event::Output(v) => EventView::Output(v@),
            Event::Input { prompt, echo } => EventView::Input { prompt: prompt@, echo: *echo },
            Event::Halt => EventView::Halt,
            Event::Fail(v) => EventView::Fail(*v),
        }
    }
}

pub open spec fn low_byte(w: u16) -> u8 {
    (w & 0xFF) as u8
}

pub open spec fn high_byte(w: u16) -> u8 {
    ((w >> 8) & 0xFF) as u8
}

/// The characters of the string at `addr`, one per word, up to the first
/// zero word or the end of memory.
pub open spec fn puts_chars(mem: Seq<u16>, addr: int) -> Seq<u8>
    decreases mem.len() - addr,
{
    if addr < 0 || addr >= mem.len() || mem[addr] == 0 {
        seq![]
    } else {
        seq![low_byte(mem[addr])] + puts_chars(mem, addr + 1)
    }
}

/// The characters of the packed string at `addr`: low byte, then high byte,
/// of each word; a word whose high byte is zero ends the string after its low
/// byte, and so does the end of memory.
pub open spec fn putsp_chars(mem: Seq<u16>, addr: int) -> Seq<u8>
    decreases mem.len() - addr,
{
    if addr < 0 || addr >= mem.len() {
        seq![]
    } else if high_byte(mem[addr]) != 0 {
        seq![low_byte(mem[addr]), high_byte(mem[addr])] + putsp_chars(mem, addr + 1)
    } else {
        seq![low_byte(mem[addr])]
    }
}

/// "Enter character: "
pub open spec fn input_prompt() -> Seq<u8> {
    seq![69u8, 110, 116, 101, 114, 32, 99, 104, 97, 114, 97, 99, 116, 101, 114, 58, 32]
}

/// What serving `vector` asks of the host, given the registers and memory.
pub open spec fn trap_event(vector: u8, s: RegisterFile, mem: Seq<u16>) -> EventView {
    if vector == TRAP_GETC {
        EventView::Input { prompt: seq![], echo: false }
    } else if vector == TRAP_OUT {
        EventView::Output(seq![low_byte(s.regs[0])])
    } else if vector == TRAP_PUTS {
        EventView::Output(puts_chars(mem, s.regs[0] as int))
    } else if vector == TRAP_IN {
        EventView::Input { prompt: input_prompt(), echo: true }
    } else if vector == TRAP_PUTSP {
        EventView::Output(putsp_chars(mem, s.regs[0] as int))
    } else if vector == TRAP_HALT {
        EventView::Halt
    } else {
        EventView::Fail(vector)
    }
}

/// The operating system services behind the trap vectors.
pub struct System;

impl System {
    pub fn new() -> Self {
        System
    }

    /// Serves a trap: decides what the host must write or read, or whether
    /// the machine stops. Registers and memory are only read.
    pub fn handle_trap(&mut self, trap_vector: u8, registers: &Registers, memory: &[u16]) -> (r:
        Event)
        requires
            memory@.len() == MEMORY_SIZE,
        ensures
            r@ == trap_event(trap_vector, registers@, memory@),
    {
        match trap_vector {
            TRAP_GETC => Event::Input { prompt: Vec::new(), echo: false },
            TRAP_OUT => self.out(registers),
            TRAP_PUTS => self.puts(registers, memory),
            TRAP_IN => Event::Input { prompt: self.prompt(), echo: true },
            TRAP_PUTSP => self.putsp(registers, memory),
            TRAP_HALT => Event::Halt,
            _ => Event::Fail(trap_vector),
        }
    }

    /// Stores a character read from the host in register 0, which is all
    /// that GETC and IN do to the machine.
    pub fn deliver_input(&mut self, registers: &mut Registers, byte: u8)
        ensures
            final(registers)@ == (RegisterFile {
                regs: old(registers)@.regs.update(0, byte as u16),
                ..old(registers)@
            }),
    {
        registers.update(0, byte as u16);
    }

    fn prompt(&self) -> (r: Vec<u8>)
        ensures
            r@ == input_prompt(),
    {
        let r = vec![69u8, 110, 116, 101, 114, 32, 99, 104, 97, 114, 97, 99, 116, 101, 114, 58, 32];
        assert(r@ =~= input_prompt());
        r
    }

    fn out(&self, registers: &Registers) -> (r: Event)
        ensures
            r@ == EventView::Output(seq![low_byte(registers@.regs[0])]),
    {
        let c = (registers.get(0) & 0xFF) as u8;
        let mut v: Vec<u8> = Vec::new();
        v.push(c);
        assert(v@ =~= seq![low_byte(registers@.regs[0])]);
        Event::Output(v)
    }

    fn puts(&self, registers: &Registers, memory: &[u16]) -> (r: Event)
        requires
            memory@.len() == MEMORY_SIZE,
        ensures
            r@ == EventView::Output(puts_chars(memory@, registers@.regs[0] as int)),
    {
        let start = registers.get(0) as usize;
        let mut address = start;
        let mut out: Vec<u8> = Vec::new();
        assert(out@ + puts_chars(memory@, address as int) =~= puts_chars(memory@, start as int));
        while address < memory.len() && memory[address] != 0
            invariant
                memory@.len() == MEMORY_SIZE,
                start <= address <= memory@.len(),
                out@ + puts_chars(memory@, address as int) == puts_chars(memory@, start as int),
            decreases memory@.len() - address,
        {
            let word = memory[address];
            let c = (word & 0xFF) as u8;
            assert(out@.push(c) + puts_chars(memory@, address + 1) =~= out@ + puts_chars(
                memory@,
                address as int,
            ));
            out.push(c);
            address += 1;
        }
        assert(out@ =~= out@ + puts_chars(memory@, address as int));
        Event::Output(out)
    }

    fn putsp(&self, registers: &Registers, memory: &[u16]) -> (r: Event)
        requires
            memory@.len() == MEMORY_SIZE,
        ensures
            r@ == EventView::Output(putsp_chars(memory@, registers@.regs[0] as int)),
    {
        let start = registers.get(0) as usize;
        let mut address = start;
        let mut out: Vec<u8> = Vec::new();
        assert(out@ + putsp_chars(memory@, address as int) =~= putsp_chars(memory@, start as int));
        while address < memory.len()
            invariant
                memory@.len() == MEMORY_SIZE,
                start <= address <= memory@.len(),
                out@ + putsp_chars(memory@, address as int) == putsp_chars(memory@, start as int),
            decreases memory@.len() - address,
        {
            let word = memory[address];
            let low = (word & 0xFF) as u8;
            let high = ((word >> 8) & 0xFF) as u8;
            let ghost before = out@;
            out.push(low);
            if high != 0 {
                out.push(high);
                assert(out@ + putsp_chars(memory@, address + 1) =~= before + putsp_chars(
                    memory@,
                    address as int,
                ));
                address += 1;
            } else {
                assert(out@ + putsp_chars(memory@, memory@.len() as int) =~= before + putsp_chars(
                    memory@,
                    address as int,
                ));
                address = memory.len();
            }
        }
        assert(out@ =~= out@ + putsp_chars(memory@, address as int));
        Event::Output(out)
    }
}

} // verus!
