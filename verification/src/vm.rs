//! The instruction codec and the reversible execution engine.
//!
//! The engine is specified over [`Machine`], the mathematical state of a
//! [`VM`]: every method of `VM` says which `Machine` it leaves behind.

use vstd::prelude::*;

verus! {

/// The index of one of the sixteen registers.
#[derive(Clone, Copy, Debug, PartialEq, Eq, Structural)]
pub struct Reg(pub u8);

/// An 8-bit value: an immediate operand, a memory address or the content of a
/// cell.
#[derive(Clone, Copy, Debug, PartialEq, Eq, Structural)]
pub struct Const(pub u8);

impl Reg {
    /// A register index names a register only below sixteen.
    pub open spec fn wf(self) -> bool {
        self.0 < 16
    }
}

/// A decoded instruction. Every instruction occupies two bytes.
#[derive(Clone, Copy, Debug, PartialEq, Eq, Structural)]
pub enum Instr {
    /// Does nothing.
    Nop,
    /// Loads the register from the memory cell at the address.
    LoadFromMemory(Reg, Const),
    /// Loads the register with the value.
    LoadWithConstant(Reg, Const),
    /// Stores the register into the memory cell at the address.
    StoreToMemory(Reg, Const),
    /// Copies the first register into the second.
    Move(Reg, Reg),
    /// Sets the first register to the wrapping sum of the other two.
    AddInt(Reg, Reg, Reg),
    /// Floating-point addition: decoded, never executed.
    AddFloat(Reg, Reg, Reg),
    /// Sets the first register to the bitwise or of the other two.
    Or(Reg, Reg, Reg),
    /// Sets the first register to the bitwise and of the other two.
    And(Reg, Reg, Reg),
    /// Sets the first register to the bitwise exclusive or of the other two.
    Xor(Reg, Reg, Reg),
    /// Rotates the register right by the low three bits of the value.
    Rotate(Reg, Const),
    /// Jumps to the address if the register equals register 0.
    JumpIfEqual(Reg, Const),
    /// Stops execution.
    Halt,
    /// Loads the first register from the cell the second register points at.
    LoadFromPointer(Reg, Reg),
    /// Stores the first register into the cell the second register points at.
    StoreToPointer(Reg, Reg),
    /// Jumps to the address if the register is below register 0.
    JumpIfLess(Reg, Const),
}

/// The low nibble of a byte.
pub open spec fn low_nibble(byte: u8) -> u8 {
    (byte % 16) as u8
}

/// The high nibble of a byte.
pub open spec fn high_nibble(byte: u8) -> u8 {
    (byte / 16) as u8
}

fn low(byte: u8) -> (r: u8)
    ensures
        r == low_nibble(byte),
{
    assert(byte & 0xf == byte % 16) by (bit_vector);
    byte & 0xf
}

fn high(byte: u8) -> (r: u8)
    ensures
        r == high_nibble(byte),
{
    assert((byte >> 4) & 0xf == byte / 16) by (bit_vector);
    (byte >> 4) & 0xf
}

impl Instr {
    /// Every register operand names one of the sixteen registers.
    pub open spec fn wf(self) -> bool {
        match self {
            Instr::Nop | Instr::Halt => true,
            Instr::LoadFromMemory(r, _)
            | Instr::LoadWithConstant(r, _)
            | Instr::StoreToMemory(r, _)
            | Instr::Rotate(r, _)
            | Instr::JumpIfEqual(r, _)
            | Instr::JumpIfLess(r, _) => r.wf(),
            Instr::Move(a, b) | Instr::LoadFromPointer(a, b) | Instr::StoreToPointer(a, b) => a.wf()
                && b.wf(),
            Instr::AddInt(a, b, c)
            | Instr::AddFloat(a, b, c)
            | Instr::Or(a, b, c)
            | Instr::And(a, b, c)
            | Instr::Xor(a, b, c) => a.wf() && b.wf() && c.wf(),
        }
    }

    /// The instruction that the word `i0 i1` encodes. The high nibble of `i0`
    /// is the opcode and its low nibble the first register; `i1` is an
    /// immediate, or holds further registers in its nibbles.
    pub open spec fn decode(i0: u8, i1: u8) -> Instr {
        let r = Reg(low_nibble(i0));
        let hi = Reg(high_nibble(i1));
        let lo = Reg(low_nibble(i1));
        let op = high_nibble(i0);
        if op == 0 {
            Instr::Nop
        } else if op == 1 {
            Instr::LoadFromMemory(r, Const(i1))
        } else if op == 2 {
            Instr::LoadWithConstant(r, Const(i1))
        } else if op == 3 {
            Instr::StoreToMemory(r, Const(i1))
        } else if op == 4 {
            Instr::Move(hi, lo)
        } else if op == 5 {
            Instr::AddInt(r, hi, lo)
        } else if op == 6 {
            Instr::AddFloat(r, hi, lo)
        } else if op == 7 {
            Instr::Or(r, hi, lo)
        } else if op == 8 {
            Instr::And(r, hi, lo)
        } else if op == 9 {
            Instr::Xor(r, hi, lo)
        } else if op == 10 {
            Instr::Rotate(r, Const(i1))
        } else if op == 11 {
            Instr::JumpIfEqual(r, Const(i1))
        } else if op == 12 {
            Instr::Halt
        } else if op == 13 {
            Instr::LoadFromPointer(r, lo)
        } else if op == 14 {
            Instr::StoreToPointer(r, lo)
        } else {
            Instr::JumpIfLess(r, Const(i1))
        }
    }

    /// Decodes the word `i0 i1`. Every word decodes.
    pub fn new(i0: u8, i1: u8) -> (instr: Instr)
        ensures
            instr == Instr::decode(i0, i1),
            instr.wf(),
    {
        match high(i0) {
            0 => Instr::Nop,
            1 => Instr::LoadFromMemory(Reg(low(i0)), Const(i1)),
            2 => Instr::LoadWithConstant(Reg(low(i0)), Const(i1)),
            3 => Instr::StoreToMemory(Reg(low(i0)), Const(i1)),
            4 => Instr::Move(Reg(high(i1)), Reg(low(i1))),
            5 => Instr::AddInt(Reg(low(i0)), Reg(high(i1)), Reg(low(i1))),
            6 => Instr::AddFloat(Reg(low(i0)), Reg(high(i1)), Reg(low(i1))),
            7 => Instr::Or(Reg(low(i0)), Reg(high(i1)), Reg(low(i1))),
            8 => Instr::And(Reg(low(i0)), Reg(high(i1)), Reg(low(i1))),
            9 => Instr::Xor(Reg(low(i0)), Reg(high(i1)), Reg(low(i1))),
            10 => Instr::Rotate(Reg(low(i0)), Const(i1)),
            11 => Instr::JumpIfEqual(Reg(low(i0)), Const(i1)),
            12 => Instr::Halt,
            13 => Instr::LoadFromPointer(Reg(low(i0)), Reg(low(i1))),
            14 => Instr::StoreToPointer(Reg(low(i0)), Reg(low(i1))),
            _ => Instr::JumpIfLess(Reg(low(i0)), Const(i1)),
        }
    }
}

/// One reversible change of the machine. An action that was applied is
/// answered by the action that takes it back.
#[derive(Clone, Copy, Debug, PartialEq, Eq, Structural)]
pub enum Action {
    /// Changes nothing.
    Nothing,
    /// Sets the register to the value.
    SetReg(Reg, Const),
    /// Sets the memory cell at the first value to the second.
    SetMem(Const, Const),
    /// Sets the program counter.
    Jump(Const),
}

impl Action {
    /// An action on a register names one of the sixteen registers.
    pub open spec fn wf(self) -> bool {
        match self {
            Action::SetReg(r, _) => r.wf(),
            _ => true,
        }
    }
}

/// Why a step could not be executed.
#[derive(Clone, Copy, Debug, PartialEq, Eq, Structural)]
pub enum VmError {
    /// The program counter cannot advance by two inside the 256 bytes.
    PcOverflow,
    /// The instruction is decoded but has no execution.
    Unimplemented,
}

/// The byte `value` rotated right by `shift` bits, for `shift` below eight:
/// the bits move down by `shift` places and the low `shift` bits move to the
/// top.
pub open spec fn rotate_right(value: u8, shift: u8) -> u8
    recommends
        shift < 8,
{
    (value >> shift) | (value << ((8 - shift) as u8))
}

/// The sum of two bytes modulo 256.
pub open spec fn wrapping_sum(a: u8, b: u8) -> u8 {
    ((a + b) % 256) as u8
}

/// The mathematical state of a [`VM`].
pub struct Machine {
    /// The sixteen registers.
    pub regs: Seq<u8>,
    /// The 256 memory cells.
    pub memory: Seq<u8>,
    /// The address of the next instruction.
    pub pc: u8,
    /// For each executed step, the action that takes it back; latest last.
    pub journal: Seq<Action>,
}

impl Machine {
    /// Sixteen registers, 256 cells, and a journal that names only existing
    /// registers.
    pub open spec fn wf(self) -> bool {
        &&& self.regs.len() == 16
        &&& self.memory.len() == 256
        &&& forall|i: int| 0 <= i < self.journal.len() ==> (#[trigger] self.journal[i]).wf()
    }

    /// The state after `action`; the journal is left alone.
    pub open spec fn apply(self, action: Action) -> Machine {
        match action {
            Action::Nothing => self,
            Action::SetReg(r, v) => Machine { regs: self.regs.update(r.0 as int, v.0), ..self },
            Action::SetMem(a, v) => Machine { memory: self.memory.update(a.0 as int, v.0), ..self },
            Action::Jump(a) => Machine { pc: a.0, ..self },
        }
    }

    /// The action that takes `action` back when it was applied in this state.
    pub open spec fn inverse(self, action: Action) -> Action {
        match action {
            Action::Nothing => Action::Nothing,
            Action::SetReg(r, _) => Action::SetReg(r, Const(self.regs[r.0 as int])),
            Action::SetMem(a, _) => Action::SetMem(a, Const(self.memory[a.0 as int])),
            Action::Jump(_) => Action::Jump(Const(self.pc)),
        }
    }

    /// The state after `action` was applied and its inverse recorded.
    pub open spec fn record(self, action: Action) -> Machine {
        Machine { journal: self.journal.push(self.inverse(action)), ..self.apply(action) }
    }

    /// The instruction encoded at `addr` and `addr + 1`.
    pub open spec fn fetch(self, addr: u8) -> Instr
        recommends
            addr < 255,
    {
        Instr::decode(self.memory[addr as int], self.memory[addr + 1])
    }

    /// The one action by which `instr` is executed in this state, or the
    /// reason why it is not executed.
    pub open spec fn effect(self, instr: Instr) -> Result<Action, VmError> {
        match instr {
            Instr::Nop => Ok(Action::Nothing),
            Instr::LoadFromMemory(r, a) => Ok(Action::SetReg(r, Const(self.memory[a.0 as int]))),
            Instr::LoadWithConstant(r, v) => Ok(Action::SetReg(r, v)),
            Instr::StoreToMemory(r, a) => Ok(Action::SetMem(a, Const(self.regs[r.0 as int]))),
            Instr::Move(from, to) => Ok(Action::SetReg(to, Const(self.regs[from.0 as int]))),
            Instr::AddInt(d, a, b) => Ok(
                Action::SetReg(
                    d,
                    Const(wrapping_sum(self.regs[a.0 as int], self.regs[b.0 as int])),
                ),
            ),
            Instr::AddFloat(_, _, _) => Err(VmError::Unimplemented),
            Instr::Or(d, a, b) => Ok(
                Action::SetReg(d, Const(self.regs[a.0 as int] | self.regs[b.0 as int])),
            ),
            Instr::And(d, a, b) => Ok(
                Action::SetReg(d, Const(self.regs[a.0 as int] & self.regs[b.0 as int])),
            ),
            Instr::Xor(d, a, b) => Ok(
                Action::SetReg(d, Const(self.regs[a.0 as int] ^ self.regs[b.0 as int])),
            ),
            Instr::Rotate(r, s) => Ok(
                Action::SetReg(r, Const(rotate_right(self.regs[r.0 as int], (s.0 % 8) as u8))),
            ),
            Instr::JumpIfEqual(r, a) => Ok(
                if self.regs[r.0 as int] == self.regs[0] {
                    Action::Jump(a)
                } else {
                    Action::Nothing
                },
            ),
            Instr::Halt => Ok(Action::Nothing),
            Instr::LoadFromPointer(r, p) => Ok(
                Action::SetReg(r, Const(self.memory[self.regs[p.0 as int] as int])),
            ),
            Instr::StoreToPointer(r, p) => Ok(
                Action::SetMem(Const(self.regs[p.0 as int]), Const(self.regs[r.0 as int])),
            ),
            Instr::JumpIfLess(r, a) => Ok(
                if self.regs[r.0 as int] < self.regs[0] {
                    Action::Jump(a)
                } else {
                    Action::Nothing
                },
            ),
        }
    }

    /// The state after `instr` was executed: its action applied and recorded.
    /// An instruction without an execution changes nothing.
    pub open spec fn exec(self, instr: Instr) -> Machine {
        match self.effect(instr) {
            Ok(action) => self.record(action),
            Err(_) => self,
        }
    }

    /// What executing `instr` reports: whether execution goes on, or the
    /// reason why the instruction is not executed.
    pub open spec fn exec_result(self, instr: Instr) -> Result<bool, VmError> {
        match self.effect(instr) {
            Ok(_) => Ok(instr != Instr::Halt),
            Err(e) => Err(e),
        }
    }

    /// The state with the program counter moved past the instruction it
    /// names.
    pub open spec fn advance(self) -> Machine
        recommends
            self.pc <= 253,
    {
        Machine { pc: (self.pc + 2) as u8, ..self }
    }

    /// The state after one step: the instruction at the program counter is
    /// fetched, the counter advances by two, and the instruction executes.
    /// Where the counter cannot advance, nothing changes.
    pub open spec fn step(self) -> Machine {
        if self.pc > 253 {
            self
        } else {
            self.advance().exec(self.fetch(self.pc))
        }
    }

    /// What one step reports.
    pub open spec fn step_result(self) -> Result<bool, VmError> {
        if self.pc > 253 {
            Err(VmError::PcOverflow)
        } else {
            self.advance().exec_result(self.fetch(self.pc))
        }
    }

    /// The state after the latest step was taken back: its recorded action
    /// is applied and the program counter moves back by two, modulo 256.
    /// With an empty journal nothing changes.
    pub open spec fn undo(self) -> Machine {
        if self.journal.len() == 0 {
            self
        } else {
            let back = Machine { journal: self.journal.drop_last(), ..self }.apply(
                self.journal.last(),
            );
            Machine { pc: ((back.pc + 254) % 256) as u8, ..back }
        }
    }

    /// The state in which a machine with this memory starts: registers and
    /// program counter zero, the journal empty.
    pub open spec fn reset(self) -> Machine {
        Machine { regs: Seq::new(16, |i: int| 0u8), memory: self.memory, pc: 0, journal: Seq::empty() }
    }
}

/// The machine: sixteen registers, 256 bytes of memory, a program counter
/// and the journal of the steps taken.
pub struct VM {
    /// The sixteen registers.
    pub regs: [u8; 16],
    /// The memory, which holds program and data alike.
    pub memory: [u8; 256],
    /// The address of the next instruction.
    pub pc: Const,
    /// For each executed step, the action that takes it back; latest last.
    pub actions: Vec<Action>,
}

impl View for VM {
    type V = Machine;

    open spec fn view(&self) -> Machine {
        Machine { regs: self.regs@, memory: self.memory@, pc: self.pc.0, journal: self.actions@ }
    }
}

impl Default for VM {
    fn default() -> (vm: VM)
        ensures
            vm@ == vm@.reset(),
            vm@.memory == Seq::new(256, |i: int| 0u8),
    {
        VM::new()
    }
}

impl VM {
    /// The journal names only existing registers, so that every recorded
    /// action can be applied.
    pub open spec fn wf(&self) -> bool {
        self@.wf()
    }

    /// A machine with every register and memory cell zero.
    pub fn new() -> (vm: VM)
        ensures
            vm@ == vm@.reset(),
            vm@.memory == Seq::new(256, |i: int| 0u8),
            vm.wf(),
    {
        let vm = VM { regs: [0u8;16], memory: [0u8;256], pc: Const(0), actions: Vec::new() };
        assert(vm@.regs =~= Seq::new(16, |i: int| 0u8));
        assert(vm@.memory =~= Seq::new(256, |i: int| 0u8));
        vm
    }

    /// Loads `memory` as the image, padded with zeros to 256 bytes, and
    /// resets registers, program counter and journal.
    pub fn fill(&mut self, memory: &[u8])
        requires
            memory@.len() <= 256,
        ensures
            final(self)@.memory == memory@ + Seq::new((256 - memory@.len()) as nat, |i: int| 0u8),
            final(self)@ == final(self)@.reset(),
            final(self).wf(),
    {
        let mut i: usize = 0;
        while i < 256
            invariant
                i <= 256,
                memory@.len() <= 256,
                forall|j: int|
                    0 <= j < i ==> self.memory@[j] == if j < memory@.len() {
                        memory@[j]
                    } else {
                        0u8
                    },
            decreases 256 - i,
        {
            let byte: u8 = if i < memory.len() {
                memory[i]
            } else {
                0
            };
            self.memory[i] = byte;
            i += 1;
        }
        self.reset();
        assert(self@.memory =~= memory@ + Seq::new(
            (256 - memory@.len()) as nat,
            |i: int| 0u8,
        ));
    }

    /// Applies `action` and returns the action that takes it back. The
    /// journal is left alone.
    pub fn execute(&mut self, action: Action) -> (inverse: Action)
        requires
            action.wf(),
        ensures
            final(self)@ == old(self)@.apply(action),
            inverse == old(self)@.inverse(action),
            inverse.wf(),
    {
        match action {
            Action::Nothing => Action::Nothing,
            Action::SetReg(reg, value) => {
                let previous: u8 = self.regs[reg.0 as usize];
                self.regs[reg.0 as usize] = value.0;
                Action::SetReg(reg, Const(previous))
            },
            Action::SetMem(addr, value) => {
                let previous: u8 = self.memory[addr.0 as usize];
                self.memory[addr.0 as usize] = value.0;
                Action::SetMem(addr, Const(previous))
            },
            Action::Jump(addr) => {
                let previous = self.pc;
                self.pc = addr;
                Action::Jump(previous)
            },
        }
    }

    /// Applies `action` and records in the journal the action that takes it
    /// back.
    pub fn redo(&mut self, action: Action)
        requires
            action.wf(),
        ensures
            final(self)@ == old(self)@.record(action),
            old(self).wf() ==> final(self).wf(),
    {
        let inverse = self.execute(action);
        self.actions.push(inverse);
    }

    /// Takes the latest step back. With an empty journal nothing changes.
    pub fn undo(&mut self)
        requires
            old(self).wf(),
        ensures
            final(self)@ == old(self)@.undo(),
            final(self).wf(),
    {
        if let Some(action) = self.actions.pop() {
            assert(action == old(self)@.journal[old(self)@.journal.len() - 1]);
            let _ = self.execute(action);
            self.pc = Const(self.pc.0.wrapping_sub(2));
        }
    }

    /// The value of the register.
    pub fn getr(&self, reg: Reg) -> (value: Const)
        requires
            reg.wf(),
        ensures
            value.0 == self@.regs[reg.0 as int],
    {
        Const(self.regs[reg.0 as usize])
    }

    /// The content of the memory cell at `addr`.
    pub fn load(&self, addr: Const) -> (value: Const)
        ensures
            value.0 == self@.memory[addr.0 as int],
    {
        Const(self.memory[addr.0 as usize])
    }

    /// Zeroes registers and program counter and empties the journal. The
    /// memory stays.
    pub fn reset(&mut self)
        ensures
            final(self)@ == old(self)@.reset(),
            final(self).wf(),
    {
        let mut i: usize = 0;
        while i < 16
            invariant
                i <= 16,
                self.memory == old(self).memory,
                forall|j: int| 0 <= j < i ==> self.regs@[j] == 0u8,
            decreases 16 - i,
        {
            self.regs[i] = 0;
            i += 1;
        }
        self.pc = Const(0);
        self.actions.clear();
        assert(self@.regs =~= Seq::new(16, |i: int| 0u8));
    }

    /// The instruction encoded at `addr` and `addr + 1`.
    pub fn dis(&self, addr: Const) -> (instr: Instr)
        requires
            addr.0 < 255,
        ensures
            instr == self@.fetch(addr.0),
            instr.wf(),
    {
        let addr = addr.0 as usize;
        Instr::new(self.memory[addr], self.memory[addr + 1])
    }

    /// Executes `instr`: applies its one action and records it in the
    /// journal. Returns whether execution goes on, which it does unless the
    /// instruction is `Halt`. An instruction without an execution is reported
    /// and changes nothing.
    pub fn exec(&mut self, instr: Instr) -> (result: Result<bool, VmError>)
        requires
            instr.wf(),
        ensures
            result == old(self)@.exec_result(instr),
            final(self)@ == old(self)@.exec(instr),
            old(self).wf() ==> final(self).wf(),
    {
        let action = match instr {
            Instr::Nop => Action::Nothing,
            Instr::LoadFromMemory(reg, addr) => Action::SetReg(reg, self.load(addr)),
            Instr::LoadWithConstant(reg, value) => Action::SetReg(reg, value),
            Instr::StoreToMemory(reg, addr) => Action::SetMem(addr, self.getr(reg)),
            Instr::Move(from, to) => Action::SetReg(to, self.getr(from)),
            Instr::AddInt(r0, r1, r2) => Action::SetReg(
                r0,
                Const(self.getr(r1).0.wrapping_add(self.getr(r2).0)),
            ),
            Instr::AddFloat(_, _, _) => {
                return Err(VmError::Unimplemented);
            },
            Instr::Or(r0, r1, r2) => Action::SetReg(r0, Const(self.getr(r1).0 | self.getr(r2).0)),
            Instr::And(r0, r1, r2) => Action::SetReg(r0, Const(self.getr(r1).0 & self.getr(r2).0)),
            Instr::Xor(r0, r1, r2) => Action::SetReg(r0, Const(self.getr(r1).0 ^ self.getr(r2).0)),
            Instr::Rotate(reg, shift) => Action::SetReg(
                reg,
                Const(rotate(self.getr(reg).0, shift.0)),
            ),
            Instr::JumpIfEqual(reg, addr) => {
                if self.getr(reg).0 == self.getr(Reg(0)).0 {
                    Action::Jump(addr)
                } else {
                    Action::Nothing
                }
            },
            Instr::Halt => Action::Nothing,
            Instr::LoadFromPointer(reg, ptr) => Action::SetReg(reg, self.load(self.getr(ptr))),
            Instr::StoreToPointer(reg, ptr) => Action::SetMem(self.getr(ptr), self.getr(reg)),
            Instr::JumpIfLess(reg, addr) => {
                if self.getr(reg).0 < self.getr(Reg(0)).0 {
                    Action::Jump(addr)
                } else {
                    Action::Nothing
                }
            },
        };
        self.redo(action);
        Ok(!matches!(instr, Instr::Halt))
    }

    /// Executes the instruction at the program counter, which first advances
    /// by two. Returns whether execution goes on. Where the counter cannot
    /// advance inside the memory the step fails and changes nothing; an
    /// instruction without an execution fails the step after the counter has
    /// advanced.
    pub fn step(&mut self) -> (result: Result<bool, VmError>)
        ensures
            result == old(self)@.step_result(),
            final(self)@ == old(self)@.step(),
            old(self).wf() ==> final(self).wf(),
    {
        if self.pc.0 > 253 {
            return Err(VmError::PcOverflow);
        }
        let instr = self.dis(self.pc);
        self.pc = Const(self.pc.0 + 2);
        self.exec(instr)
    }
}

/// Rotates `value` right by the low three bits of `shift`.
fn rotate(value: u8, shift: u8) -> (r: u8)
    ensures
        r == rotate_right(value, (shift % 8) as u8),
{
    let s: u8 = shift & 7;
    assert(shift & 7 == shift % 8) by (bit_vector);
    if s == 0 {
        assert((value >> 0u8) | (value << 8u8) == value) by (bit_vector);
        value
    } else {
        (value >> s) | (value << (8 - s))
    }
}

} // verus!
