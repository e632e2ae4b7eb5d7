//! The commands of an interactive session, and what each does to the
//! machine.

use crate::vm::{Machine, VmError, VM};
use vstd::prelude::*;

verus! {

/// A key that was pressed.
#[derive(Clone, Copy, Debug, PartialEq, Eq, Structural)]
pub enum Key {
    /// The enter key.
    Enter,
    /// The key of a character.
    Char(char),
    /// Any other key.
    Other,
}

/// What a session can be told to do.
#[derive(Clone, Copy, Debug, PartialEq, Eq, Structural)]
pub enum Command {
    /// Execute one instruction.
    Step,
    /// Take the latest step back.
    Undo,
    /// Reset the machine.
    Reset,
    /// Execute to the end of the program.
    RunAll,
    /// Leave the session.
    Quit,
    /// Nothing.
    Ignore,
}

/// How a session goes on after a command.
#[derive(Clone, Copy, Debug, PartialEq, Eq, Structural)]
pub enum Flow {
    /// The session waits for the next key.
    Next,
    /// The same command is performed again.
    Again,
    /// The session ends.
    Stop,
}

impl Key {
    /// The command that the key gives: enter runs the program, `s` steps,
    /// `z` takes a step back, `r` resets and `q` quits.
    pub open spec fn command(self) -> Command {
        match self {
            Key::Enter => Command::RunAll,
            Key::Char(c) => if c == 's' {
                Command::Step
            } else if c == 'q' {
                Command::Quit
            } else if c == 'r' {
                Command::Reset
            } else if c == 'z' {
                Command::Undo
            } else {
                Command::Ignore
            },
            Key::Other => Command::Ignore,
        }
    }
}

/// The command that `key` gives.
pub fn command_for(key: Key) -> (command: Command)
    ensures
        command == key.command(),
{
    match key {
        Key::Enter => Command::RunAll,
        Key::Char(c) => if c == 's' {
            Command::Step
        } else if c == 'q' {
            Command::Quit
        } else if c == 'r' {
            Command::Reset
        } else if c == 'z' {
            Command::Undo
        } else {
            Command::Ignore
        },
        Key::Other => Command::Ignore,
    }
}

impl Command {
    /// The machine after the command was performed once.
    pub open spec fn effect(self, m: Machine) -> Machine {
        match self {
            Command::Step | Command::RunAll => m.step(),
            Command::Undo => m.undo(),
            Command::Reset => m.reset(),
            Command::Quit | Command::Ignore => m,
        }
    }

    /// How the session goes on after the command was performed once on `m`:
    /// a step that halts ends the session, a step that fails gives its
    /// error, and to run is to step again until then.
    pub open spec fn flow(self, m: Machine) -> Result<Flow, VmError> {
        match self {
            Command::Step => match m.step_result() {
                Ok(running) => Ok(
                    if running {
                        Flow::Next
                    } else {
                        Flow::Stop
                    },
                ),
                Err(e) => Err(e),
            },
            Command::RunAll => match m.step_result() {
                Ok(running) => Ok(
                    if running {
                        Flow::Again
                    } else {
                        Flow::Stop
                    },
                ),
                Err(e) => Err(e),
            },
            Command::Quit => Ok(Flow::Stop),
            Command::Undo | Command::Reset | Command::Ignore => Ok(Flow::Next),
        }
    }
}

/// Performs `command` once on the machine and says how the session goes on.
pub fn perform(vm: &mut VM, command: Command) -> (flow: Result<Flow, VmError>)
    requires
        old(vm).wf(),
    ensures
        final(vm)@ == command.effect(old(vm)@),
        flow == command.flow(old(vm)@),
        final(vm).wf(),
{
    match command {
        Command::Step => match vm.step() {
            Ok(true) => Ok(Flow::Next),
            Ok(false) => Ok(Flow::Stop),
            Err(e) => Err(e),
        },
        Command::RunAll => match vm.step() {
            Ok(true) => Ok(Flow::Again),
            Ok(false) => Ok(Flow::Stop),
            Err(e) => Err(e),
        },
        Command::Undo => {
            vm.undo();
            Ok(Flow::Next)
        },
        Command::Reset => {
            vm.reset();
            Ok(Flow::Next)
        },
        Command::Quit => Ok(Flow::Stop),
        Command::Ignore => Ok(Flow::Next),
    }
}

} // verus!
