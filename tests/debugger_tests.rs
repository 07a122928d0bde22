use revgame_core::{
    BookmarkManager, CpuState, Debugger, DebuggerError, DebuggerState, Disassembler, ExecutionResult, Executor,
    History, Memory, MemoryPatch, MemorySearch, RunResult,
};

#[test]
fn test_basic_execution() {
    let mut dbg = Debugger::new(0x4000);
    dbg.cpu.eip = 0x1000;
    dbg.cpu.regs.esp = 0x3000;
    dbg.memory.load(0x1000, &[0xB8, 0x42, 0x00, 0x00, 0x00, 0xF4]).unwrap();
    let result = dbg.run().unwrap();
    assert!(matches!(result, RunResult::Halted));
    assert_eq!(dbg.cpu.regs.eax, 0x42);
}

#[test]
fn test_breakpoint() {
    let mut dbg = Debugger::new(0x4000);
    dbg.cpu.eip = 0x1000;
    dbg.cpu.regs.esp = 0x3000;
    dbg.memory.load(0x1000, &[0x90, 0x90, 0xF4]).unwrap();
    dbg.set_breakpoint(0x1001);
    let result = dbg.run().unwrap();
    assert!(matches!(result, RunResult::Breakpoint(0x1001)));
    assert_eq!(dbg.cpu.eip, 0x1001);
    assert!(!dbg.cpu.halted);
}

#[test]
fn test_step() {
    let mut dbg = Debugger::new(0x4000);
    dbg.cpu.eip = 0x1000;
    dbg.cpu.regs.esp = 0x3000;
    dbg.memory.load(0x1000, &[0x90, 0x90, 0xF4]).unwrap();
    let result = dbg.step().unwrap();
    assert!(matches!(result.state, DebuggerState::Ready));
    assert_eq!(dbg.cpu.eip, 0x1001);
    let result = dbg.step().unwrap();
    assert!(matches!(result.state, DebuggerState::Ready));
    assert_eq!(dbg.cpu.eip, 0x1002);
    let result = dbg.step().unwrap();
    assert!(matches!(result.state, DebuggerState::Halted));
}

#[test]
fn test_reset() {
    let mut dbg = Debugger::new(0x4000);
    dbg.cpu.eip = 0x1000;
    dbg.cpu.regs.eax = 0;
    dbg.cpu.regs.esp = 0x3000;
    dbg.memory.load(0x1000, &[0xB8, 0x42, 0x00, 0x00, 0x00, 0xF4]).unwrap();
    dbg.save_initial_state();
    dbg.run().unwrap();
    assert_eq!(dbg.cpu.regs.eax, 0x42);
    dbg.reset();
    assert_eq!(dbg.cpu.regs.eax, 0);
    assert_eq!(dbg.cpu.eip, 0x1000);
}

#[test]
fn step_after_halt_fails() {
    let mut dbg = Debugger::new(0x4000);
    dbg.cpu.eip = 0x1000;
    dbg.memory.load(0x1000, &[0xF4]).unwrap();
    dbg.step().unwrap();
    assert_eq!(dbg.step().unwrap_err(), DebuggerError::AlreadyHalted);
}

#[test]
fn run_stops_exactly_at_the_instruction_limit() {
    let mut dbg = Debugger::new(0x4000);
    dbg.cpu.eip = 0x1000;
    dbg.memory.load(0x1000, &[0xEB, 0xFE]).unwrap();
    dbg.max_instructions = 25;
    assert_eq!(dbg.run().unwrap(), RunResult::LimitExceeded(25));
    assert_eq!(dbg.instructions_executed, 25);
    assert_eq!(dbg.state, DebuggerState::LimitExceeded);
    dbg.reset();
    assert_eq!(dbg.run_n(7).unwrap(), RunResult::LimitExceeded(7));
    assert_eq!(dbg.max_instructions, 25);
}

#[test]
fn interrupt_loop_still_ends_at_the_limit() {
    let mut dbg = Debugger::new(0x4000);
    dbg.cpu.eip = 0x1000;
    dbg.memory.load(0x1000, &[0xCD, 0x80]).unwrap();
    assert_eq!(dbg.run_n(5).unwrap(), RunResult::LimitExceeded(5));
}

#[test]
fn step_back_unwinds_in_reverse_order() {
    let mut dbg = Debugger::new(0x4000);
    dbg.cpu.eip = 0x1000;
    dbg.cpu.regs.esp = 0x3000;
    dbg.memory.load(0x1000, &[0xB8, 0x01, 0, 0, 0, 0x40, 0x40, 0xF4]).unwrap();
    let r1 = dbg.step().unwrap();
    assert_eq!(r1.changed_registers, vec!["EAX".to_string(), "EIP".to_string()]);
    dbg.step().unwrap();
    dbg.step().unwrap();
    assert_eq!(dbg.cpu.regs.eax, 3);
    assert_eq!(dbg.history().len(), 3);
    let e = dbg.step_back().unwrap();
    assert_eq!(e.eip, 0x1006);
    assert_eq!(dbg.cpu.regs.eax, 2);
    assert_eq!(dbg.cpu.eip, 0x1006);
    let e = dbg.step_back().unwrap();
    assert_eq!(e.eip, 0x1005);
    assert_eq!(dbg.cpu.regs.eax, 1);
    let e = dbg.step_back().unwrap();
    assert_eq!(e.eip, 0x1000);
    assert_eq!(dbg.cpu.regs.eax, 0);
    assert_eq!(dbg.cpu.eip, 0x1000);
    assert!(dbg.step_back().is_none());
}

#[test]
fn patch_undo_redo_round_trip() {
    let mut dbg = Debugger::new(0x100);
    dbg.memory.load(0x10, &[1, 2, 3]).unwrap();
    dbg.patch(0x10, &[9, 9]).unwrap();
    assert_eq!(dbg.memory.read_bytes(0x10, 3).unwrap(), vec![9, 9, 3]);
    assert_eq!(dbg.undo_count(), 1);
    dbg.undo_patch().unwrap();
    assert_eq!(dbg.memory.read_bytes(0x10, 3).unwrap(), vec![1, 2, 3]);
    assert!(dbg.can_redo());
    dbg.redo_patch().unwrap();
    assert_eq!(dbg.memory.read_bytes(0x10, 3).unwrap(), vec![9, 9, 3]);
    dbg.undo_patch().unwrap();
    dbg.patch(0x20, &[7]).unwrap();
    assert_eq!(dbg.redo_count(), 0);
    assert_eq!(dbg.redo_patch().unwrap_err(), DebuggerError::NothingToRedo);
    dbg.undo_patch().unwrap();
    assert_eq!(dbg.undo_patch().unwrap_err(), DebuggerError::NothingToUndo);
    assert!(!dbg.can_undo());
    assert!(dbg.patch(0xFF, &[1, 2]).is_err());
}

#[test]
fn toggling_breakpoints() {
    let mut dbg = Debugger::with_puzzle_layout(0x1000, 0x1000, 0x2000, 0x3000);
    assert_eq!(dbg.cpu.eip, 0x1000);
    assert_eq!(dbg.cpu.regs.esp, 0x3000);
    assert!(dbg.toggle_breakpoint(0x1004));
    assert!(dbg.has_breakpoint(0x1004));
    assert!(!dbg.toggle_breakpoint(0x1004));
    assert!(!dbg.has_breakpoint(0x1004));
    dbg.set_breakpoint(0x1008);
    dbg.remove_breakpoint(0x1008);
    assert!(!dbg.has_breakpoint(0x1008));
}

#[test]
fn load_and_entry_setters_feed_reset() {
    let mut dbg = Debugger::new(0x2000);
    dbg.load_code(0x1000, &[0x40, 0xF4]).unwrap();
    dbg.load_data(0x1800, &[5]).unwrap();
    dbg.set_entry_point(0x1000);
    dbg.set_stack_pointer(0x1F00);
    dbg.run().unwrap();
    assert_eq!(dbg.cpu.regs.eax, 1);
    dbg.memory.write_u8(0x1800, 6).unwrap();
    dbg.reset();
    assert_eq!(dbg.cpu.eip, 0x1000);
    assert_eq!(dbg.cpu.regs.esp, 0x1F00);
    assert_eq!(dbg.memory.read_u8(0x1800).unwrap(), 5);
    assert_eq!(dbg.disassemble(2).len(), 2);
    assert_eq!(dbg.disassemble_at(0x1001, 1)[0].text, "hlt");
    assert!(dbg.load_code(0x1FFF, &[1, 2]).is_err());
}

fn setup_test() -> (CpuState, Memory, Executor) {
    let cpu = CpuState::new(0x1000, 0x3000);
    let memory = Memory::new(0x4000);
    let executor = Executor::new();
    (cpu, memory, executor)
}

#[test]
fn test_mov_reg_imm() {
    let (mut cpu, mut memory, executor) = setup_test();
    memory.load(0x1000, &[0xB8, 0x78, 0x56, 0x34, 0x12]).unwrap();
    let result = executor.execute_one(&mut cpu, &mut memory).unwrap();
    assert!(matches!(result, ExecutionResult::Continue { next_eip: 0x1005 }));
    assert_eq!(cpu.regs.eax, 0x12345678);
}

#[test]
fn test_add_reg_reg() {
    let (mut cpu, mut memory, executor) = setup_test();
    cpu.regs.eax = 10;
    cpu.regs.ebx = 20;
    memory.load(0x1000, &[0x01, 0xD8]).unwrap();
    executor.execute_one(&mut cpu, &mut memory).unwrap();
    assert_eq!(cpu.regs.eax, 30);
}

#[test]
fn test_cmp_sets_zf() {
    let (mut cpu, mut memory, executor) = setup_test();
    cpu.regs.eax = 5;
    cpu.regs.ebx = 5;
    memory.load(0x1000, &[0x39, 0xD8]).unwrap();
    executor.execute_one(&mut cpu, &mut memory).unwrap();
    assert!(cpu.eflags.zf);
}

#[test]
fn test_jne_not_taken() {
    let (mut cpu, mut memory, executor) = setup_test();
    cpu.eflags.zf = true;
    memory.load(0x1000, &[0x75, 0x05]).unwrap();
    let result = executor.execute_one(&mut cpu, &mut memory).unwrap();
    assert!(matches!(result, ExecutionResult::Continue { next_eip: 0x1002 }));
}

#[test]
fn test_jne_taken() {
    let (mut cpu, mut memory, executor) = setup_test();
    cpu.eflags.zf = false;
    memory.load(0x1000, &[0x75, 0x05]).unwrap();
    let result = executor.execute_one(&mut cpu, &mut memory).unwrap();
    assert!(matches!(result, ExecutionResult::Continue { next_eip: 0x1007 }));
}

#[test]
fn test_push_pop() {
    let (mut cpu, mut memory, executor) = setup_test();
    cpu.regs.eax = 0xDEADBEEF;
    memory.load(0x1000, &[0x50]).unwrap();
    executor.execute_one(&mut cpu, &mut memory).unwrap();
    assert_eq!(cpu.regs.esp, 0x2FFC);
    cpu.regs.eax = 0;
    cpu.eip = 0x1001;
    memory.load(0x1001, &[0x5B]).unwrap();
    executor.execute_one(&mut cpu, &mut memory).unwrap();
    assert_eq!(cpu.regs.ebx, 0xDEADBEEF);
    assert_eq!(cpu.regs.esp, 0x3000);
}

fn run_code(code: &[u8], setup: impl Fn(&mut CpuState)) -> (CpuState, Memory) {
    let (mut cpu, mut memory, executor) = setup_test();
    setup(&mut cpu);
    memory.load(0x1000, code).unwrap();
    let r = executor.execute_one(&mut cpu, &mut memory).unwrap();
    if let ExecutionResult::Continue { next_eip } = r {
        cpu.eip = next_eip;
    }
    (cpu, memory)
}

#[test]
fn sub_to_zero_and_borrow_flags() {
    let (cpu, _) = run_code(&[0x29, 0xD8], |c| { c.regs.eax = 5; c.regs.ebx = 5; });
    assert_eq!(cpu.regs.eax, 0);
    assert!(cpu.eflags.zf && !cpu.eflags.cf);
    let (cpu, _) = run_code(&[0x29, 0xD8], |c| { c.regs.eax = 0; c.regs.ebx = 1; });
    assert_eq!(cpu.regs.eax, 0xFFFFFFFF);
    assert!(cpu.eflags.cf && cpu.eflags.sf);
}

#[test]
fn inc_overflow_keeps_carry() {
    let (cpu, _) = run_code(&[0x40], |c| { c.regs.eax = 0x7FFFFFFF; c.eflags.cf = true; });
    assert_eq!(cpu.regs.eax, 0x80000000);
    assert!(cpu.eflags.of && cpu.eflags.cf);
}

#[test]
fn logic_ops_clear_carry_and_overflow() {
    for code in [[0x21u8, 0xD8], [0x09, 0xD8], [0x31, 0xD8]] {
        let (cpu, _) = run_code(&code, |c| { c.regs.eax = 0xF0F0; c.regs.ebx = 0x0FF0; c.eflags.cf = true; c.eflags.of = true; });
        assert!(!cpu.eflags.cf && !cpu.eflags.of);
    }
}

#[test]
fn neg_mul_imul_and_shifts() {
    let (cpu, _) = run_code(&[0xF7, 0xD8], |c| c.regs.eax = 5);
    assert_eq!(cpu.regs.eax, 0xFFFFFFFB);
    assert!(cpu.eflags.cf);
    let (cpu, _) = run_code(&[0xF7, 0xE3], |c| { c.regs.eax = 0x80000000; c.regs.ebx = 4; });
    assert_eq!((cpu.regs.edx, cpu.regs.eax), (2, 0));
    assert!(cpu.eflags.cf && cpu.eflags.of);
    let (cpu, _) = run_code(&[0xF7, 0xEB], |c| { c.regs.eax = 0xFFFFFFFE; c.regs.ebx = 3; });
    assert_eq!((cpu.regs.edx, cpu.regs.eax), (0xFFFFFFFF, 0xFFFFFFFA));
    assert!(!cpu.eflags.cf);
    let (cpu, _) = run_code(&[0x6B, 0xC3, 0x05], |c| c.regs.ebx = 7);
    assert_eq!(cpu.regs.eax, 35);
    let (cpu, _) = run_code(&[0xD1, 0xE0], |c| c.regs.eax = 0x80000001);
    assert_eq!(cpu.regs.eax, 2);
    assert!(cpu.eflags.cf && cpu.eflags.of);
    let (cpu, _) = run_code(&[0xC1, 0xF8, 0x04], |c| c.regs.eax = 0x80000000);
    assert_eq!(cpu.regs.eax, 0xF8000000);
    let (cpu, _) = run_code(&[0xD1, 0xE8], |c| c.regs.eax = 3);
    assert_eq!(cpu.regs.eax, 1);
    assert!(cpu.eflags.cf);
}

#[test]
fn call_ret_lea_and_interrupts() {
    let (cpu, mem) = run_code(&[0xE8, 0x10, 0, 0, 0], |_| {});
    assert_eq!(cpu.eip, 0x1015);
    assert_eq!(cpu.regs.esp, 0x2FFC);
    assert_eq!(mem.read_u32(0x2FFC).unwrap(), 0x1005);
    let (cpu, _) = run_code(&[0x8D, 0x44, 0x8B, 0x08], |c| { c.regs.ebx = 0x100; c.regs.ecx = 2; });
    assert_eq!(cpu.regs.eax, 0x110);
    let (mut cpu, mut memory, executor) = setup_test();
    memory.load(0x1000, &[0xCC]).unwrap();
    assert_eq!(executor.execute_one(&mut cpu, &mut memory).unwrap(), ExecutionResult::Breakpoint);
    memory.load(0x1000, &[0xCD, 0x80]).unwrap();
    assert_eq!(executor.execute_one(&mut cpu, &mut memory).unwrap(), ExecutionResult::Interrupt(0x80));
    memory.write_u32(0x2FF0, 0x1234).unwrap();
    cpu.regs.esp = 0x2FF0;
    memory.load(0x1000, &[0xC2, 0x08, 0x00]).unwrap();
    assert_eq!(executor.execute_one(&mut cpu, &mut memory).unwrap(), ExecutionResult::Continue { next_eip: 0x1234 });
    assert_eq!(cpu.regs.esp, 0x2FFC);
    memory.load(0x1000, &[0x0F, 0xA2]).unwrap();
    assert!(executor.execute_one(&mut cpu, &mut memory).is_err());
}

#[test]
fn test_disassemble_nop() {
    let dis = Disassembler::new();
    let line = dis.disassemble_one(&[0x90], 0x1000).unwrap();
    assert_eq!(line.address, 0x1000);
    assert_eq!(line.length, 1);
    assert!(line.text.contains("nop"));
}

#[test]
fn test_disassemble_mov_eax_imm() {
    let dis = Disassembler::new();
    let line = dis.disassemble_one(&[0xB8, 0x78, 0x56, 0x34, 0x12], 0x1000).unwrap();
    assert_eq!(line.address, 0x1000);
    assert_eq!(line.length, 5);
    assert!(line.text.contains("mov"));
    assert!(line.text.contains("eax"));
}

#[test]
fn test_disassemble_multiple() {
    let dis = Disassembler::new();
    let lines = dis.disassemble(&[0x90, 0x90, 0xC3], 0x1000, 10);
    assert_eq!(lines.len(), 3);
    assert_eq!(lines[0].address, 0x1000);
    assert_eq!(lines[1].address, 0x1001);
    assert_eq!(lines[2].address, 0x1002);
    assert!(lines[2].text.contains("ret"));
    assert_eq!(Disassembler::format_bytes(&[0x90, 0x0A, 0xCC]), "90 0A CC");
}

#[test]
fn test_basic_undo_redo() {
    let mut history = History::new(10);
    history.record(MemoryPatch::new(0x1000, vec![0x90], vec![0xEB]));
    assert!(history.can_undo());
    assert!(!history.can_redo());
    let undo = history.undo().unwrap();
    assert_eq!(undo.address, 0x1000);
    assert_eq!(undo.new_bytes, vec![0x90]);
    assert!(!history.can_undo());
    assert!(history.can_redo());
    let redo = history.redo().unwrap();
    assert_eq!(redo.address, 0x1000);
    assert_eq!(redo.new_bytes, vec![0xEB]);
    assert!(history.can_undo());
    assert!(!history.can_redo());
}

#[test]
fn test_clear_redo_on_new_action() {
    let mut history = History::new(10);
    history.record(MemoryPatch::new(0x1000, vec![0x90], vec![0xEB]));
    history.undo();
    assert!(history.can_redo());
    history.record(MemoryPatch::new(0x1001, vec![0x00], vec![0xFF]));
    assert!(!history.can_redo());
    assert!(history.can_undo());
}

#[test]
fn test_max_history_limit() {
    let mut history = History::new(3);
    for i in 0..4 {
        history.record(MemoryPatch::new(0x1000 + i, vec![0x00], vec![0xFF]));
    }
    assert_eq!(history.undo_count(), 3);
    assert_eq!(history.undo().unwrap().address, 0x1003);
    history.clear();
    assert_eq!(history.redo_count(), 0);
    let p = MemoryPatch::new(1, vec![1], vec![2]).inverse();
    assert_eq!((p.old_bytes, p.new_bytes), (vec![2], vec![1]));
}

#[test]
fn test_search_bytes() {
    let mut memory = Memory::new(4096 * 4);
    memory.write_bytes(0x1000, &[0x90, 0x90, 0x90]).unwrap();
    memory.write_bytes(0x2000, &[0x90, 0x90, 0x90]).unwrap();
    let results = MemorySearch::search_bytes(&memory, &[0x90, 0x90], 0x0, 0x3000).unwrap();
    assert_eq!(results.len(), 4);
    assert_eq!(results[0].address, 0x1000);
    assert_eq!(results[1].address, 0x1001);
    assert_eq!(results[2].address, 0x2000);
    assert_eq!(results[3].address, 0x2001);
}

#[test]
fn test_search_string() {
    let mut memory = Memory::new(4096 * 4);
    memory.write_bytes(0x1000, b"HELLO").unwrap();
    memory.write_bytes(0x2000, b"hello").unwrap();
    let results = MemorySearch::search_string(&memory, "HELLO", 0x0, 0x3000, true).unwrap();
    assert_eq!(results.len(), 1);
    assert_eq!(results[0].address, 0x1000);
    let results = MemorySearch::search_string(&memory, "hello", 0x0, 0x3000, false).unwrap();
    assert_eq!(results.len(), 2);
    assert_eq!(results[0].address, 0x1000);
    assert_eq!(results[1].address, 0x2000);
    assert_eq!(results[0].data, b"HELLO".to_vec());
}

#[test]
fn test_find_strings() {
    let mut memory = Memory::new(4096 * 4);
    memory.write_bytes(0x1000, b"Hello\0").unwrap();
    memory.write_bytes(0x2000, b"World!\0").unwrap();
    memory.write_bytes(0x3000, b"Hi\0").unwrap();
    let results = MemorySearch::find_strings(&memory, 4, 0x0, 0x4000).unwrap();
    assert_eq!(results.len(), 2);
    assert_eq!(results[0].address, 0x1000);
    assert_eq!(results[0].data, b"Hello");
    assert_eq!(results[1].address, 0x2000);
    assert_eq!(results[1].data, b"World!");
}

#[test]
fn test_parse_hex_pattern() {
    assert_eq!(MemorySearch::parse_hex_pattern("90 90").unwrap(), vec![0x90, 0x90]);
    assert_eq!(MemorySearch::parse_hex_pattern("0x90 0x90").unwrap(), vec![0x90, 0x90]);
    assert_eq!(MemorySearch::parse_hex_pattern("9090").unwrap(), vec![0x90, 0x90]);
    assert!(MemorySearch::parse_hex_pattern("9").is_err());
    assert!(MemorySearch::parse_hex_pattern("ZZ").is_err());
}

#[test]
fn search_edge_cases() {
    let mut memory = Memory::new(0x100);
    memory.write_bytes(0x10, b"Hi\0ab\x01cdef\0").unwrap();
    assert!(matches!(MemorySearch::search_bytes(&memory, &[], 0, 0x10), Err(DebuggerError::InvalidInput(_))));
    assert!(matches!(MemorySearch::search_bytes(&memory, &[1], 0x10, 0x10), Err(DebuggerError::InvalidInput(_))));
    assert!(matches!(MemorySearch::search_bytes(&memory, &[1], 0xF0, 0x110), Err(DebuggerError::Memory(_))));
    assert_eq!(MemorySearch::search_bytes(&memory, &[1, 2, 3], 0, 2).unwrap().len(), 0);
    let found = MemorySearch::find_strings(&memory, 2, 0, 0x100).unwrap();
    assert_eq!(found.len(), 2);
    assert_eq!(found[0].data, b"Hi");
    assert_eq!(found[1].address, 0x16);
    assert_eq!(found[1].data, b"cdef");
    assert_eq!(MemorySearch::parse_hex_pattern("0xDE,0xad").unwrap(), vec![0xDE, 0xAD]);
}

#[test]
fn test_add_bookmark() {
    let mut manager = BookmarkManager::new();
    assert!(manager.add(0x1000, "Entry point"));
    assert_eq!(manager.count(), 1);
    assert!(!manager.add(0x1000, "Updated note"));
    assert_eq!(manager.count(), 1);
}

#[test]
fn test_remove_bookmark() {
    let mut manager = BookmarkManager::new();
    manager.add(0x1000, "Test");
    assert!(manager.remove(0x1000));
    assert!(!manager.has_bookmark(0x1000));
    assert!(!manager.remove(0x1000));
}

#[test]
fn test_navigation() {
    let mut manager = BookmarkManager::new();
    manager.add(0x1000, "First");
    manager.add(0x2000, "Second");
    manager.add(0x3000, "Third");
    assert_eq!(manager.next_after(0x1000), Some(0x2000));
    assert_eq!(manager.next_after(0x2000), Some(0x3000));
    assert_eq!(manager.next_after(0x3000), None);
    assert_eq!(manager.prev_before(0x3000), Some(0x2000));
    assert_eq!(manager.prev_before(0x2000), Some(0x1000));
    assert_eq!(manager.prev_before(0x1000), None);
}

#[test]
fn test_toggle() {
    let mut manager = BookmarkManager::new();
    assert!(manager.toggle(0x1000, "Test"));
    assert!(manager.has_bookmark(0x1000));
    assert!(!manager.toggle(0x1000, "Test"));
    assert!(!manager.has_bookmark(0x1000));
}

#[test]
fn test_update_note() {
    let mut manager = BookmarkManager::new();
    manager.add(0x1000, "Original");
    assert!(manager.update_note(0x1000, "Updated"));
    let bookmark = manager.get(0x1000).unwrap();
    assert_eq!(bookmark.note, "Updated");
    assert!(!manager.update_note(0x2000, "Test"));
}

#[test]
fn bookmarks_stay_sorted() {
    let mut manager = BookmarkManager::new();
    manager.add_at(0x30, "c", 3);
    manager.add_at(0x10, "a", 1);
    manager.add_at(0x20, "b", 2);
    assert_eq!(manager.addresses(), vec![0x10, 0x20, 0x30]);
    assert_eq!(manager.list()[1].created_at, 2);
    manager.clear();
    assert_eq!(manager.count(), 0);
    assert_eq!(manager.next_after(u32::MAX), None);
}

#[test]
fn xchg_not_dec_test_and_memory_operands() {
    let (cpu, _) = run_code(&[0x87, 0xD8], |c| { c.regs.eax = 1; c.regs.ebx = 2; });
    assert_eq!((cpu.regs.eax, cpu.regs.ebx), (2, 1));
    let (cpu, _) = run_code(&[0xF7, 0xD0], |c| c.regs.eax = 0x0F0F0F0F);
    assert_eq!(cpu.regs.eax, 0xF0F0F0F0);
    let (cpu, _) = run_code(&[0x48], |c| c.regs.eax = 0x80000000);
    assert_eq!(cpu.regs.eax, 0x7FFFFFFF);
    assert!(cpu.eflags.of);
    let (cpu, _) = run_code(&[0x85, 0xC0], |c| c.regs.eax = 0);
    assert!(cpu.eflags.zf);
    assert_eq!(cpu.regs.eax, 0);
    let (_, mem) = run_code(&[0x89, 0x03], |c| { c.regs.eax = 0xCAFEBABE; c.regs.ebx = 0x2000; });
    assert_eq!(mem.read_u32(0x2000).unwrap(), 0xCAFEBABE);
    let (cpu, _) = run_code(&[0x8B, 0x43, 0x04], |c| c.regs.ebx = 0x3000);
    assert_eq!(cpu.regs.eax, 0);
    let (cpu, _) = run_code(&[0x6B, 0xC0, 0x02], |c| c.regs.eax = 0x40000000);
    assert_eq!(cpu.regs.eax, 0x80000000);
    assert!(cpu.eflags.of && cpu.eflags.cf);
}

#[test]
fn jumps_follow_the_flags() {
    let (cpu, _) = run_code(&[0xEB, 0x10], |_| {});
    assert_eq!(cpu.eip, 0x1012);
    let (cpu, _) = run_code(&[0x7F, 0x10], |c| { c.eflags.zf = false; c.eflags.sf = true; c.eflags.of = true; });
    assert_eq!(cpu.eip, 0x1012);
    let (cpu, _) = run_code(&[0x7E, 0x10], |c| { c.eflags.zf = false; c.eflags.sf = false; c.eflags.of = false; });
    assert_eq!(cpu.eip, 0x1002);
    let (cpu, _) = run_code(&[0x72, 0x10], |c| c.eflags.cf = true);
    assert_eq!(cpu.eip, 0x1012);
    let (cpu, _) = run_code(&[0x77, 0x10], |c| c.eflags.cf = true);
    assert_eq!(cpu.eip, 0x1002);
}

#[test]
fn fetch_past_the_end_fails() {
    let mut cpu = CpuState::new(0xFF8, 0);
    let mut memory = Memory::new(0x1000);
    let executor = Executor::new();
    assert!(executor.execute_one(&mut cpu, &mut memory).is_err());
    assert_eq!(cpu.eip, 0xFF8);
}
