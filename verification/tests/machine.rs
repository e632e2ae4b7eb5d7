use v8_cpu::assembler::assemble;
use v8_cpu::control::{command_for, perform, Command, Flow, Key};
use v8_cpu::vm::{Action, Const, Instr, Reg, VmError, VM};

fn machine(source: &str) -> VM {
    let image = assemble(source).unwrap();
    let mut vm = VM::new();
    vm.fill(&image);
    vm
}

#[test]
fn new_machine_is_zero() {
    let vm = VM::new();
    assert_eq!(vm.regs, [0u8; 16]);
    assert_eq!(vm.memory, [0u8; 256]);
    assert_eq!(vm.pc, Const(0));
    assert!(vm.actions.is_empty());
    let other = VM::default();
    assert_eq!(other.regs, vm.regs);
    assert_eq!(other.pc, vm.pc);
}

#[test]
fn decode_every_opcode() {
    assert_eq!(Instr::new(0x0A, 0xBC), Instr::Nop);
    assert_eq!(Instr::new(0x1A, 0xBC), Instr::LoadFromMemory(Reg(0xA), Const(0xBC)));
    assert_eq!(Instr::new(0x2A, 0xBC), Instr::LoadWithConstant(Reg(0xA), Const(0xBC)));
    assert_eq!(Instr::new(0x3A, 0xBC), Instr::StoreToMemory(Reg(0xA), Const(0xBC)));
    assert_eq!(Instr::new(0x4A, 0xBC), Instr::Move(Reg(0xB), Reg(0xC)));
    assert_eq!(Instr::new(0x5A, 0xBC), Instr::AddInt(Reg(0xA), Reg(0xB), Reg(0xC)));
    assert_eq!(Instr::new(0x6A, 0xBC), Instr::AddFloat(Reg(0xA), Reg(0xB), Reg(0xC)));
    assert_eq!(Instr::new(0x7A, 0xBC), Instr::Or(Reg(0xA), Reg(0xB), Reg(0xC)));
    assert_eq!(Instr::new(0x8A, 0xBC), Instr::And(Reg(0xA), Reg(0xB), Reg(0xC)));
    assert_eq!(Instr::new(0x9A, 0xBC), Instr::Xor(Reg(0xA), Reg(0xB), Reg(0xC)));
    assert_eq!(Instr::new(0xAA, 0xBC), Instr::Rotate(Reg(0xA), Const(0xBC)));
    assert_eq!(Instr::new(0xBA, 0xBC), Instr::JumpIfEqual(Reg(0xA), Const(0xBC)));
    assert_eq!(Instr::new(0xCA, 0xBC), Instr::Halt);
    assert_eq!(Instr::new(0xDA, 0xBC), Instr::LoadFromPointer(Reg(0xA), Reg(0xC)));
    assert_eq!(Instr::new(0xEA, 0xBC), Instr::StoreToPointer(Reg(0xA), Reg(0xC)));
    assert_eq!(Instr::new(0xFA, 0xBC), Instr::JumpIfLess(Reg(0xA), Const(0xBC)));
}

#[test]
fn fill_pads_with_zeros_and_resets() {
    let mut vm = VM::new();
    vm.fill(&[0x20, 0x05, 0xC0, 0x00]);
    assert_eq!(vm.step(), Ok(true));
    assert_eq!(vm.regs[0], 5);
    vm.memory[200] = 9;
    vm.fill(&[1, 2, 3]);
    assert_eq!(&vm.memory[..3], &[1, 2, 3]);
    assert!(vm.memory[3..].iter().all(|b| *b == 0));
    assert_eq!(vm.regs, [0u8; 16]);
    assert_eq!(vm.pc, Const(0));
    assert!(vm.actions.is_empty());
}

#[test]
fn fill_takes_a_full_image() {
    let image = [7u8; 256];
    let mut vm = VM::new();
    vm.fill(&image);
    assert_eq!(vm.memory, image);
}

#[test]
fn execute_answers_with_the_inverse() {
    let mut vm = VM::new();
    assert_eq!(vm.execute(Action::Nothing), Action::Nothing);
    assert_eq!(vm.execute(Action::SetReg(Reg(3), Const(9))), Action::SetReg(Reg(3), Const(0)));
    assert_eq!(vm.regs[3], 9);
    assert_eq!(vm.execute(Action::SetReg(Reg(3), Const(1))), Action::SetReg(Reg(3), Const(9)));
    assert_eq!(
        vm.execute(Action::SetMem(Const(255), Const(4))),
        Action::SetMem(Const(255), Const(0))
    );
    assert_eq!(vm.memory[255], 4);
    assert_eq!(vm.execute(Action::Jump(Const(40))), Action::Jump(Const(0)));
    assert_eq!(vm.pc, Const(40));
    assert!(vm.actions.is_empty());
}

#[test]
fn execute_twice_restores() {
    let mut vm = VM::new();
    vm.regs[2] = 77;
    let back = vm.execute(Action::SetReg(Reg(2), Const(5)));
    let again = vm.execute(back);
    assert_eq!(vm.regs[2], 77);
    assert_eq!(again, Action::SetReg(Reg(2), Const(5)));
}

#[test]
fn redo_records_the_inverse() {
    let mut vm = VM::new();
    vm.redo(Action::SetReg(Reg(1), Const(8)));
    assert_eq!(vm.regs[1], 8);
    assert_eq!(vm.actions, vec![Action::SetReg(Reg(1), Const(0))]);
}

#[test]
fn undo_of_an_empty_journal_changes_nothing() {
    let mut vm = VM::new();
    vm.regs[4] = 3;
    vm.pc = Const(10);
    vm.undo();
    assert_eq!(vm.regs[4], 3);
    assert_eq!(vm.pc, Const(10));
}

#[test]
fn undo_after_redo_moves_the_counter_back_by_two() {
    let mut vm = VM::new();
    vm.pc = Const(1);
    vm.redo(Action::SetReg(Reg(1), Const(8)));
    vm.undo();
    assert_eq!(vm.regs[1], 0);
    assert_eq!(vm.pc, Const(255));
}

#[test]
fn getr_and_load_read_the_state() {
    let mut vm = VM::new();
    vm.regs[15] = 0xAB;
    vm.memory[0xFE] = 0xCD;
    assert_eq!(vm.getr(Reg(15)), Const(0xAB));
    assert_eq!(vm.load(Const(0xFE)), Const(0xCD));
}

#[test]
fn reset_keeps_the_memory() {
    let mut vm = machine("loadb R1, 7\nstorem R1, 0x80\nhalt");
    assert_eq!(vm.step(), Ok(true));
    assert_eq!(vm.step(), Ok(true));
    assert_eq!(vm.memory[0x80], 7);
    vm.reset();
    assert_eq!(vm.regs, [0u8; 16]);
    assert_eq!(vm.pc, Const(0));
    assert!(vm.actions.is_empty());
    assert_eq!(vm.memory[0x80], 7);
    assert_eq!(vm.memory[0], 0x21);
}

#[test]
fn dis_decodes_the_word_at_an_address() {
    let vm = machine("loadb R1, 7\nhalt");
    assert_eq!(vm.dis(Const(0)), Instr::LoadWithConstant(Reg(1), Const(7)));
    assert_eq!(vm.dis(Const(2)), Instr::Halt);
    assert_eq!(vm.dis(Const(254)), Instr::Nop);
}

#[test]
fn halt_only_program() {
    let image = assemble("halt").unwrap();
    assert_eq!(image.len(), 256);
    assert_eq!(&image[..2], &[0xC0, 0x00]);
    assert!(image[2..].iter().all(|b| *b == 0));
    let mut vm = VM::new();
    vm.fill(&image);
    assert_eq!(vm.step(), Ok(false));
    assert_eq!(vm.pc, Const(2));
    assert_eq!(vm.regs, [0u8; 16]);
    assert_eq!(&vm.memory[..], &image[..]);
}

#[test]
fn example_program_runs() {
    let mut vm = machine("loadb R0, 5\nloadb R1, 3\naddi R2, R0, R1\nhalt");
    assert_eq!(vm.step(), Ok(true));
    assert_eq!(vm.step(), Ok(true));
    assert_eq!(vm.step(), Ok(true));
    assert_eq!(vm.step(), Ok(false));
    assert_eq!(vm.regs[2], 8);
    assert_eq!(vm.regs[0], 5);
    assert_eq!(vm.regs[1], 3);
    assert_eq!(vm.actions.len(), 4);
    assert_eq!(vm.pc, Const(8));
}

#[test]
fn rotate_right_by_three() {
    let mut vm = machine("rot R0, 0x3\nhalt");
    vm.regs[0] = 0b1011_0000;
    assert_eq!(vm.step(), Ok(true));
    assert_eq!(vm.regs[0], 0b0001_0110);
}

#[test]
fn rotate_uses_the_low_three_bits() {
    let mut vm = VM::new();
    vm.regs[5] = 0x81;
    assert_eq!(vm.exec(Instr::Rotate(Reg(5), Const(0))), Ok(true));
    assert_eq!(vm.regs[5], 0x81);
    assert_eq!(vm.exec(Instr::Rotate(Reg(5), Const(8))), Ok(true));
    assert_eq!(vm.regs[5], 0x81);
    assert_eq!(vm.exec(Instr::Rotate(Reg(5), Const(1))), Ok(true));
    assert_eq!(vm.regs[5], 0xC0);
    assert_eq!(vm.exec(Instr::Rotate(Reg(5), Const(0xF7))), Ok(true));
    assert_eq!(vm.regs[5], 0x81);
}

#[test]
fn arithmetic_and_logic() {
    let mut vm = VM::new();
    vm.regs[1] = 200;
    vm.regs[2] = 100;
    assert_eq!(vm.exec(Instr::AddInt(Reg(3), Reg(1), Reg(2))), Ok(true));
    assert_eq!(vm.regs[3], 44);
    vm.regs[1] = 0b1100;
    vm.regs[2] = 0b1010;
    assert_eq!(vm.exec(Instr::Or(Reg(4), Reg(1), Reg(2))), Ok(true));
    assert_eq!(vm.exec(Instr::And(Reg(5), Reg(1), Reg(2))), Ok(true));
    assert_eq!(vm.exec(Instr::Xor(Reg(6), Reg(1), Reg(2))), Ok(true));
    assert_eq!(vm.regs[4], 0b1110);
    assert_eq!(vm.regs[5], 0b1000);
    assert_eq!(vm.regs[6], 0b0110);
}

#[test]
fn transfers() {
    let mut vm = VM::new();
    vm.memory[0x30] = 0x11;
    assert_eq!(vm.exec(Instr::LoadFromMemory(Reg(1), Const(0x30))), Ok(true));
    assert_eq!(vm.regs[1], 0x11);
    assert_eq!(vm.exec(Instr::StoreToMemory(Reg(1), Const(0x31))), Ok(true));
    assert_eq!(vm.memory[0x31], 0x11);
    assert_eq!(vm.exec(Instr::Move(Reg(1), Reg(2))), Ok(true));
    assert_eq!(vm.regs[2], 0x11);
    assert_eq!(vm.exec(Instr::LoadWithConstant(Reg(3), Const(0x31))), Ok(true));
    assert_eq!(vm.exec(Instr::LoadFromPointer(Reg(4), Reg(3))), Ok(true));
    assert_eq!(vm.regs[4], 0x11);
    assert_eq!(vm.exec(Instr::LoadWithConstant(Reg(5), Const(0x40))), Ok(true));
    assert_eq!(vm.exec(Instr::StoreToPointer(Reg(4), Reg(5))), Ok(true));
    assert_eq!(vm.memory[0x40], 0x11);
    assert_eq!(vm.exec(Instr::Nop), Ok(true));
    assert_eq!(vm.actions.len(), 8);
}

#[test]
fn move_statement_copies_the_second_register_into_the_first() {
    let mut vm = machine("loadb R2, 9\nmove R1, R2\nhalt");
    assert_eq!(vm.step(), Ok(true));
    assert_eq!(vm.step(), Ok(true));
    assert_eq!(vm.regs[1], 9);
    assert_eq!(vm.regs[2], 9);
}

#[test]
fn jumps_compare_with_register_zero() {
    let mut vm = VM::new();
    vm.regs[0] = 5;
    vm.regs[1] = 5;
    vm.regs[2] = 4;
    vm.pc = Const(10);
    assert_eq!(vm.exec(Instr::JumpIfEqual(Reg(2), Const(0x50))), Ok(true));
    assert_eq!(vm.pc, Const(10));
    assert_eq!(vm.exec(Instr::JumpIfEqual(Reg(1), Const(0x50))), Ok(true));
    assert_eq!(vm.pc, Const(0x50));
    assert_eq!(vm.exec(Instr::JumpIfLess(Reg(1), Const(0x60))), Ok(true));
    assert_eq!(vm.pc, Const(0x50));
    assert_eq!(vm.exec(Instr::JumpIfLess(Reg(2), Const(0x60))), Ok(true));
    assert_eq!(vm.pc, Const(0x60));
    assert_eq!(
        vm.actions,
        vec![Action::Nothing, Action::Jump(Const(10)), Action::Nothing, Action::Jump(Const(0x50))]
    );
}

#[test]
fn float_addition_is_not_executed() {
    let mut vm = machine("addf R1, R2, R3\nhalt");
    assert_eq!(vm.step(), Err(VmError::Unimplemented));
    assert_eq!(vm.pc, Const(2));
    assert!(vm.actions.is_empty());
    assert_eq!(vm.regs, [0u8; 16]);
    assert_eq!(vm.exec(Instr::AddFloat(Reg(1), Reg(2), Reg(3))), Err(VmError::Unimplemented));
}

#[test]
fn counter_overflow_fails_the_step() {
    let mut vm = VM::new();
    vm.pc = Const(254);
    assert_eq!(vm.step(), Err(VmError::PcOverflow));
    assert_eq!(vm.pc, Const(254));
    vm.pc = Const(255);
    assert_eq!(vm.step(), Err(VmError::PcOverflow));
    assert_eq!(vm.pc, Const(255));
    assert!(vm.actions.is_empty());
    vm.pc = Const(253);
    assert_eq!(vm.step(), Ok(true));
    assert_eq!(vm.pc, Const(255));
}

#[test]
fn undo_restores_the_state_before_the_steps() {
    let source = "loadb R0, 5\nloadb R1, 3\naddi R2, R0, R1\nstorem R2, 0x90\nloadb R3, 0x90\n\
                  loadp R4, R3\nstorep R0, R3\nrot R4, 1\nhalt";
    let mut vm = machine(source);
    let regs = vm.regs;
    let memory = vm.memory;
    let mut steps = 0;
    loop {
        let running = vm.step().unwrap();
        steps += 1;
        if !running {
            break;
        }
    }
    assert_eq!(steps, 9);
    assert_eq!(vm.actions.len(), 9);
    assert_eq!(vm.memory[0x90], 5);
    assert_eq!(vm.regs[4], 4);
    for _ in 0..steps {
        vm.undo();
    }
    assert_eq!(vm.regs, regs);
    assert_eq!(vm.memory, memory);
    assert_eq!(vm.pc, Const(0));
    assert!(vm.actions.is_empty());
}

#[test]
fn undo_of_a_jump_returns_to_the_jump() {
    let mut vm = machine("loadb R1, 0\nnone\njump R1, target\nhalt\ntarget@0x40: halt");
    assert_eq!(vm.step(), Ok(true));
    assert_eq!(vm.step(), Ok(true));
    assert_eq!(vm.pc, Const(4));
    assert_eq!(vm.step(), Ok(true));
    assert_eq!(vm.pc, Const(0x40));
    assert_eq!(vm.actions.last(), Some(&Action::Jump(Const(6))));
    vm.undo();
    assert_eq!(vm.pc, Const(4));
    assert_eq!(vm.actions.len(), 2);
    assert_eq!(vm.step(), Ok(true));
    assert_eq!(vm.pc, Const(0x40));
}

#[test]
fn undo_of_a_halt_returns_to_the_halt() {
    let mut vm = machine("loadb R1, 1\nhalt");
    assert_eq!(vm.step(), Ok(true));
    assert_eq!(vm.step(), Ok(false));
    assert_eq!(vm.pc, Const(4));
    vm.undo();
    assert_eq!(vm.pc, Const(2));
    assert_eq!(vm.regs[1], 1);
    vm.undo();
    assert_eq!(vm.pc, Const(0));
    assert_eq!(vm.regs[1], 0);
}

#[test]
fn keys_give_commands() {
    assert_eq!(command_for(Key::Enter), Command::RunAll);
    assert_eq!(command_for(Key::Char('s')), Command::Step);
    assert_eq!(command_for(Key::Char('q')), Command::Quit);
    assert_eq!(command_for(Key::Char('r')), Command::Reset);
    assert_eq!(command_for(Key::Char('z')), Command::Undo);
    assert_eq!(command_for(Key::Char('S')), Command::Ignore);
    assert_eq!(command_for(Key::Other), Command::Ignore);
}

#[test]
fn commands_drive_the_machine() {
    let mut vm = machine("loadb R1, 1\nloadb R2, 2\nhalt");
    assert_eq!(perform(&mut vm, Command::Step), Ok(Flow::Next));
    assert_eq!(vm.regs[1], 1);
    assert_eq!(perform(&mut vm, Command::Undo), Ok(Flow::Next));
    assert_eq!(vm.regs[1], 0);
    assert_eq!(perform(&mut vm, Command::Ignore), Ok(Flow::Next));
    assert_eq!(perform(&mut vm, Command::RunAll), Ok(Flow::Again));
    assert_eq!(perform(&mut vm, Command::RunAll), Ok(Flow::Again));
    assert_eq!(perform(&mut vm, Command::RunAll), Ok(Flow::Stop));
    assert_eq!(vm.regs[2], 2);
    assert_eq!(perform(&mut vm, Command::Reset), Ok(Flow::Next));
    assert_eq!(vm.pc, Const(0));
    assert_eq!(vm.regs[2], 0);
    assert_eq!(perform(&mut vm, Command::Quit), Ok(Flow::Stop));
    vm.pc = Const(254);
    assert_eq!(perform(&mut vm, Command::Step), Err(VmError::PcOverflow));
    assert_eq!(perform(&mut vm, Command::RunAll), Err(VmError::PcOverflow));
    let mut halting = machine("halt");
    assert_eq!(perform(&mut halting, Command::Step), Ok(Flow::Stop));
}
