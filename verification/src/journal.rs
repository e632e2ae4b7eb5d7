//! What the journal guarantees: every recorded action takes its step back.

use crate::vm::{Action, Machine};
use vstd::prelude::*;

verus! {

impl Machine {
    /// The state after `n` steps.
    pub open spec fn run(self, n: nat) -> Machine
        decreases n,
    {
        if n == 0 {
            self
        } else {
            self.run((n - 1) as nat).step()
        }
    }

    /// Each of the first `n` steps from this state is executed: none fails.
    pub open spec fn runs(self, n: nat) -> bool
        decreases n,
    {
        n == 0 || (self.runs((n - 1) as nat) && self.run((n - 1) as nat).step_result() is Ok)
    }

    /// The state after `n` steps were taken back.
    pub open spec fn rewind(self, n: nat) -> Machine
        decreases n,
    {
        if n == 0 {
            self
        } else {
            self.undo().rewind((n - 1) as nat)
        }
    }
}

/// An action is taken back by its inverse, and the inverse of the inverse is
/// the action itself: to apply an action and keep what it answers loses
/// nothing.
pub proof fn lemma_inverse_takes_back(m: Machine, action: Action)
    requires
        m.regs.len() == 16,
        m.memory.len() == 256,
        action.wf(),
    ensures
        m.inverse(action).wf(),
        m.apply(action).apply(m.inverse(action)) == m,
        m.apply(action).inverse(m.inverse(action)) == action,
{
    let after = m.apply(action);
    let back = after.apply(m.inverse(action));
    assert(back.regs =~= m.regs);
    assert(back.memory =~= m.memory);
}

/// A step that is executed adds one entry to the journal, and `undo` then
/// restores registers, memory, program counter and journal exactly. This
/// holds of a jump too: the counter that `undo` finds recorded is the one
/// past the jump instruction.
pub proof fn lemma_undo_inverts_step(m: Machine)
    requires
        m.wf(),
        m.step_result() is Ok,
    ensures
        m.step().wf(),
        m.step().journal.len() == m.journal.len() + 1,
        m.step().undo() == m,
{
    let advanced = m.advance();
    let action = advanced.effect(m.fetch(m.pc))->Ok_0;
    assert(m.fetch(m.pc).wf());
    lemma_inverse_takes_back(advanced, action);
    let after = m.step();
    assert(after.journal.drop_last() =~= m.journal);
    assert(after.undo().regs =~= m.regs);
    assert(after.undo().memory =~= m.memory);
}

/// Undo is a true inverse: after `n` executed steps, `n` calls of `undo`
/// restore registers, memory, program counter and journal exactly.
/// Meanwhile the journal has grown by one entry for each step.
pub proof fn lemma_undo_inverts_steps(m: Machine, n: nat)
    requires
        m.wf(),
        m.runs(n),
    ensures
        m.run(n).wf(),
        m.run(n).journal.len() == m.journal.len() + n,
        m.run(n).rewind(n) == m,
    decreases n,
{
    if n > 0 {
        let before = m.run((n - 1) as nat);
        lemma_undo_inverts_steps(m, (n - 1) as nat);
        lemma_undo_inverts_step(before);
    }
}

} // verus!
