//! What the assembler writes, the codec reads back: each statement decodes
//! to the instruction that it names.

use crate::program::SlotView;
use crate::statement::{encoded, operands, Mnemonic, Operands};
use crate::vm::{Const, Instr, Reg};
use vstd::prelude::*;

verus! {

/// The instruction that the statement of `mnemonic` with `ops` names, where
/// its value operand, if it has one, stands for `byte`. `move a, b` names
/// the instruction that copies register `b` into register `a`.
pub open spec fn meaning(mnemonic: Mnemonic, ops: Operands, byte: u8) -> Instr {
    match (mnemonic, ops) {
        (Mnemonic::Loadm, Operands::RegValue(r, _)) => Instr::LoadFromMemory(Reg(r), Const(byte)),
        (Mnemonic::Loadb, Operands::RegValue(r, _)) => Instr::LoadWithConstant(
            Reg(r),
            Const(byte),
        ),
        (Mnemonic::Storem, Operands::RegValue(r, _)) => Instr::StoreToMemory(Reg(r), Const(byte)),
        (Mnemonic::Rot, Operands::RegValue(r, _)) => Instr::Rotate(Reg(r), Const(byte)),
        (Mnemonic::Jump, Operands::RegValue(r, _)) => Instr::JumpIfEqual(Reg(r), Const(byte)),
        (Mnemonic::Jumpl, Operands::RegValue(r, _)) => Instr::JumpIfLess(Reg(r), Const(byte)),
        (Mnemonic::Move, Operands::Regs2(a, b)) => Instr::Move(Reg(b), Reg(a)),
        (Mnemonic::Loadp, Operands::Regs2(a, b)) => Instr::LoadFromPointer(Reg(a), Reg(b)),
        (Mnemonic::Storep, Operands::Regs2(a, b)) => Instr::StoreToPointer(Reg(a), Reg(b)),
        (Mnemonic::Addi, Operands::Regs3(d, a, b)) => Instr::AddInt(Reg(d), Reg(a), Reg(b)),
        (Mnemonic::Addf, Operands::Regs3(d, a, b)) => Instr::AddFloat(Reg(d), Reg(a), Reg(b)),
        (Mnemonic::Or, Operands::Regs3(d, a, b)) => Instr::Or(Reg(d), Reg(a), Reg(b)),
        (Mnemonic::And, Operands::Regs3(d, a, b)) => Instr::And(Reg(d), Reg(a), Reg(b)),
        (Mnemonic::Xor, Operands::Regs3(d, a, b)) => Instr::Xor(Reg(d), Reg(a), Reg(b)),
        (Mnemonic::Halt, _) => Instr::Halt,
        _ => Instr::Nop,
    }
}

/// Whether `slot` holds `byte` once the program is resolved: it is that
/// byte, or a reference, which may resolve to any byte.
pub open spec fn may_hold(slot: SlotView, byte: u8) -> bool {
    match slot {
        SlotView::Const(b) => b == byte,
        SlotView::Ref(_, _) => true,
    }
}

/// Round trip: the two bytes that a statement is encoded in decode to the
/// instruction that the statement names, for every mnemonic of an
/// instruction and all operands that name registers. The first slot of the
/// statement is a byte, and `byte` is what its second slot holds.
pub proof fn lemma_statement_decodes(mnemonic: Mnemonic, ops: Operands, line: usize, byte: u8)
    requires
        mnemonic != Mnemonic::Db,
        ops.shape() == mnemonic.shape(),
        ops.wf(),
        encoded(mnemonic, ops, line).second is Some,
        may_hold(encoded(mnemonic, ops, line).second->0, byte),
    ensures
        encoded(mnemonic, ops, line).first is Const,
        Instr::decode(encoded(mnemonic, ops, line).first->Const_0, byte) == meaning(
            mnemonic,
            ops,
            byte,
        ),
        meaning(mnemonic, ops, byte).wf(),
{
}

/// Round trip for what the assembler reads: where the operands of an
/// instruction's mnemonic are read from `text`, the statement decodes to the
/// instruction that it names, whatever byte its value operand stands for.
pub proof fn lemma_read_statement_decodes(mnemonic: Mnemonic, text: Seq<char>, line: usize, byte: u8)
    requires
        mnemonic != Mnemonic::Db,
        operands(mnemonic.shape(), text) is Ok,
        may_hold(encoded(mnemonic, operands(mnemonic.shape(), text)->Ok_0.0, line).second->0, byte),
    ensures
        encoded(mnemonic, operands(mnemonic.shape(), text)->Ok_0.0, line).first is Const,
        encoded(mnemonic, operands(mnemonic.shape(), text)->Ok_0.0, line).second is Some,
        Instr::decode(
            encoded(mnemonic, operands(mnemonic.shape(), text)->Ok_0.0, line).first->Const_0,
            byte,
        ) == meaning(mnemonic, operands(mnemonic.shape(), text)->Ok_0.0, byte),
{
    let ops = operands(mnemonic.shape(), text)->Ok_0.0;
    assert(ops.wf() && ops.shape() == mnemonic.shape());
    lemma_statement_decodes(mnemonic, ops, line, byte);
}

} // verus!
