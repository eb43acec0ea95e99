use crate::processor::{
    next_memory, next_registers, opcode_field, outcome, trap_vector_field, with_pc,
    ExecutionResult, Processor, MEMORY_SIZE,
};
use crate::registers::RegisterFile;
use crate::syscalls::{trap_event, Event, EventView, System};
use vstd::prelude::*;

verus! {

/// Whether the machine still runs, and how it stopped.
#[derive(Clone, Copy)]
pub enum Status {
    Running,
    /// Stopped by the halt trap: success.
    Halted,
    /// Stopped by this unknown trap vector: failure.
    Failed(u8),
}

/// The whole machine as a mathematical value.
pub struct VmState {
    pub reg: RegisterFile,
    pub mem: Seq<u16>,
    pub status: Status,
}

/// The status after the host has been given `e`.
pub open spec fn status_after(e: EventView) -> Status {
    match e {
        EventView::Halt => Status::Halted,
        EventView::Fail(v) => Status::Failed(v),
        _ => Status::Running,
    }
}

/// One machine cycle: fetch the word at the program counter, advance the
/// program counter, execute, and serve a trap if one was raised. A stopped
/// machine does nothing and reports how it stopped.
pub open spec fn step_spec(v: VmState) -> (VmState, EventView) {
    match v.status {
        Status::Halted => (v, EventView::Halt),
        Status::Failed(x) => (v, EventView::Fail(x)),
        Status::Running => {
            let instr = v.mem[v.reg.pc as int];
            let fetched = with_pc(v.reg, v.reg.pc.wrapping_add(1));
            let reg = next_registers(fetched, v.mem, instr);
            let mem = next_memory(fetched, v.mem, instr);
            match outcome(instr) {
                ExecutionResult::Continue => (
                    VmState { reg, mem, status: Status::Running },
                    EventView::Continue,
                ),
                ExecutionResult::Trap(vector) => {
                    let e = trap_event(vector, reg, mem);
                    (VmState { reg, mem, status: status_after(e) }, e)
                },
            }
        },
    }
}

/// Up to `fuel` cycles, stopping at the first one that needs the host.
pub open spec fn run_spec(v: VmState, fuel: nat) -> (VmState, EventView)
    decreases fuel,
{
    if fuel == 0 {
        (v, EventView::Continue)
    } else {
        let (next, e) = step_spec(v);
        if e is Continue {
            run_spec(next, (fuel - 1) as nat)
        } else {
            (next, e)
        }
    }
}

/// Memory after `words` are stored from `origin` on, the address wrapping
/// past the last word.
pub open spec fn load_spec(mem: Seq<u16>, origin: u16, words: Seq<u16>) -> Seq<u16>
    decreases words.len(),
{
    if words.len() == 0 {
        mem
    } else {
        load_spec(mem.update(origin as int, words[0]), origin.wrapping_add(1), words.drop_first())
    }
}

/// Memory, the processor and the operating system services.
pub struct VM {
    memory: [u16; MEMORY_SIZE],
    processor: Processor,
    system: System,
    status: Status,
}

impl View for VM {
    type V = VmState;

    closed spec fn view(&self) -> VmState {
        VmState { reg: self.processor.registers@, mem: self.memory@, status: self.status }
    }
}

impl VM {
    /// A running machine with every register and every word of memory zero.
    pub fn new() -> (r: VM)
        ensures
            r@.reg.regs == Seq::new(8, |i: int| 0u16),
            r@.reg.pc == 0,
            r@.reg.cond == 0,
            r@.mem == Seq::new(MEMORY_SIZE as nat, |i: int| 0u16),
            r@.status == Status::Running,
    {
        let r = VM {
            memory: [0u16; MEMORY_SIZE],
            processor: Processor::new(),
            system: System::new(),
            status: Status::Running,
        };
        assert(r@.mem =~= Seq::new(MEMORY_SIZE as nat, |i: int| 0u16));
        r
    }

    pub fn write_memory(&mut self, addr: u16, value: u16)
        ensures
            final(self)@ == (VmState { mem: old(self)@.mem.update(addr as int, value), ..old(self)@ }),
    {
        self.memory[addr as usize] = value;
    }

    pub fn read_memory(&self, addr: u16) -> (r: u16)
        ensures
            r == self@.mem[addr as int],
    {
        self.memory[addr as usize]
    }

    pub fn read_register(&self, index: u16) -> (r: u16)
        requires
            index < 8,
        ensures
            r == self@.reg.regs[index as int],
    {
        self.processor.registers.get(index)
    }

    pub fn pc(&self) -> (r: u16)
        ensures
            r == self@.reg.pc,
    {
        self.processor.registers.pc
    }

    pub fn status(&self) -> (r: Status)
        ensures
            r == self@.status,
    {
        self.status
    }

    /// The process exit status that the machine's state calls for: none while
    /// it runs, 0 after a halt, 1 after an unknown trap.
    pub fn exit_code(&self) -> (r: Option<i32>)
        ensures
            r == (match self@.status {
                Status::Running => None,
                Status::Halted => Some(0i32),
                Status::Failed(_) => Some(1i32),
            }),
    {
        match self.status {
            Status::Running => None,
            Status::Halted => Some(0),
            Status::Failed(_) => Some(1),
        }
    }

    /// Stores `words` from `origin` on, wrapping past the last address.
    pub fn load_image(&mut self, origin: u16, words: &[u16])
        ensures
            final(self)@ == (VmState { mem: load_spec(old(self)@.mem, origin, words@), ..old(self)@ }),
    {
        let mut i: usize = 0;
        let mut addr: u16 = origin;
        assert(words@ =~= words@.skip(0));
        while i < words.len()
            invariant
                i <= words@.len(),
                self.processor == old(self).processor,
                self.status == old(self).status,
                self.memory@.len() == MEMORY_SIZE,
                load_spec(self.memory@, addr, words@.skip(i as int)) == load_spec(
                    old(self).memory@,
                    origin,
                    words@,
                ),
            decreases words@.len() - i,
        {
            assert(words@.skip(i as int).drop_first() =~= words@.skip(i + 1));
            self.memory[addr as usize] = words[i];
            addr = addr.wrapping_add(1);
            i += 1;
        }
    }

    /// Hands a character read from the host to the program, in register 0.
    pub fn provide_input(&mut self, byte: u8)
        ensures
            final(self)@ == (VmState {
                reg: RegisterFile { regs: old(self)@.reg.regs.update(0, byte as u16), ..old(self)@.reg },
                ..old(self)@
            }),
    {
        self.system.deliver_input(&mut self.processor.registers, byte);
    }

    /// Runs one machine cycle.
    pub fn step(&mut self) -> (r: Event)
        ensures
            (final(self)@, r@) == step_spec(old(self)@),
    {
        match self.status {
            Status::Halted => return Event::Halt,
            Status::Failed(v) => return Event::Fail(v),
            Status::Running => {},
        }
        let pc = self.processor.registers.pc;
        let instruction = self.memory[pc as usize];
        self.processor.registers.pc = pc.wrapping_add(1);
        match self.processor.execute(instruction, &mut self.memory) {
            ExecutionResult::Continue => Event::Continue,
            ExecutionResult::Trap(trap_vector) => {
                let e = self.system.handle_trap(
                    trap_vector,
                    &self.processor.registers,
                    &self.memory,
                );
                match e {
                    Event::Halt => self.status = Status::Halted,
                    Event::Fail(v) => self.status = Status::Failed(v),
                    _ => {},
                }
                e
            },
        }
    }

    /// Runs up to `fuel` cycles and returns the first event that needs the
    /// host, or `Continue` when the fuel ran out first.
    pub fn execute(&mut self, fuel: u64) -> (r: Event)
        ensures
            (final(self)@, r@) == run_spec(old(self)@, fuel as nat),
    {
        let mut left: u64 = fuel;
        while left > 0
            invariant
                run_spec(self@, left as nat) == run_spec(old(self)@, fuel as nat),
            decreases left,
        {
            let e = self.step();
            match e {
                Event::Continue => {},
                _ => return e,
            }
            left -= 1;
        }
        Event::Continue
    }
}

/// A stopped machine stays stopped: no further instruction runs, whatever
/// the number of cycles asked for, and it keeps reporting how it stopped.
pub proof fn lemma_stopped_machine_is_inert(v: VmState, fuel: nat)
    requires
        !(v.status is Running),
        fuel > 0,
    ensures
        step_spec(v).0 == v,
        run_spec(v, fuel).0 == v,
        v.status is Halted ==> run_spec(v, fuel).1 == EventView::Halt,
        v.status is Failed ==> run_spec(v, fuel).1 == EventView::Fail(v.status->Failed_0),
{
}

/// A TRAP whose vector names no service stops the machine, reporting that
/// vector as its failure; only the fetch has changed the machine, and from
/// then on it runs no instruction.
pub proof fn lemma_unknown_trap_fails(v: VmState, fuel: nat)
    requires
        v.status is Running,
        opcode_field(v.mem[v.reg.pc as int]) == 15,
        trap_vector_field(v.mem[v.reg.pc as int]) < 0x20 || trap_vector_field(
            v.mem[v.reg.pc as int],
        ) > 0x25,
    ensures
        ({
            let vector = trap_vector_field(v.mem[v.reg.pc as int]);
            let (next, e) = step_spec(v);
            &&& e == EventView::Fail(vector)
            &&& next.status == Status::Failed(vector)
            &&& next.reg == with_pc(v.reg, v.reg.pc.wrapping_add(1))
            &&& next.mem == v.mem
            &&& fuel > 0 ==> run_spec(next, fuel) == (next, EventView::Fail(vector))
        }),
{
}

/// The address of the `i`-th word of an image loaded at `origin`.
pub open spec fn image_addr(origin: u16, i: int) -> int {
    (origin as int + i) % 0x10000
}

proof fn lemma_load_frame(mem: Seq<u16>, origin: u16, words: Seq<u16>, a: int)
    requires
        mem.len() == MEMORY_SIZE,
        0 <= a < MEMORY_SIZE,
        forall|j: int| 0 <= j < words.len() ==> image_addr(origin, j) != a,
    ensures
        load_spec(mem, origin, words).len() == MEMORY_SIZE,
        load_spec(mem, origin, words)[a] == mem[a],
    decreases words.len(),
{
    if words.len() > 0 {
        let next = origin.wrapping_add(1);
        assert(next as int == (origin as int + 1) % 0x10000);
        assert forall|j: int| 0 <= j < words.drop_first().len() implies image_addr(next, j) != a by {
            assert(image_addr(next, j) == image_addr(origin, j + 1));
        }
        assert(image_addr(origin, 0) != a);
        lemma_load_frame(mem.update(origin as int, words[0]), next, words.drop_first(), a);
    }
}

/// An image that fits in memory lands word by word from its origin on, the
/// address wrapping past the last one.
pub proof fn lemma_load_places_words(mem: Seq<u16>, origin: u16, words: Seq<u16>)
    requires
        mem.len() == MEMORY_SIZE,
        words.len() <= MEMORY_SIZE,
    ensures
        load_spec(mem, origin, words).len() == MEMORY_SIZE,
        forall|i: int|
            0 <= i < words.len() ==> load_spec(mem, origin, words)[#[trigger] image_addr(origin, i)] == words[i],
    decreases words.len(),
{
    if words.len() > 0 {
        let next = origin.wrapping_add(1);
        let rest = words.drop_first();
        let mem1 = mem.update(origin as int, words[0]);
        assert(next as int == (origin as int + 1) % 0x10000);
        lemma_load_places_words(mem1, next, rest);
        assert forall|j: int| 0 <= j < rest.len() implies image_addr(next, j) != origin as int by {
            assert(image_addr(next, j) == image_addr(origin, j + 1));
        }
        lemma_load_frame(mem1, next, rest, origin as int);
        assert forall|i: int| 0 <= i < words.len() implies load_spec(mem, origin, words)[#[trigger] image_addr(origin, i)]
            == words[i] by {
            if i > 0 {
                assert(image_addr(next, i - 1) == image_addr(origin, i));
                assert(load_spec(mem1, next, rest)[image_addr(next, i - 1)] == rest[i - 1]);
            } else {
                assert(image_addr(origin, 0) == origin as int);
            }
        }
    } else {
        lemma_load_frame(mem, origin, words, 0);
    }
}

} // verus!
