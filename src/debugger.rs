//! The debugger: stepping, running, breakpoints, execution trace and patches.
use std::collections::{HashSet, VecDeque};
use vstd::prelude::*;
use crate::bookmarks::BookmarkManager;
use crate::cpu::CpuState;
use crate::decoder::{DisassemblyLine, InsView, decode, is_listing};
use crate::executor::{EmulatorError, ExecutionResult, Executor, decoded_at, execute, outcome};
use crate::history::{History, MemoryPatch, PatchView, copy_bytes};
use crate::memory::{Memory, MemoryError, splice};
use crate::puzzle::{Puzzle, cleaned_code_hex};
use crate::search::{all_hex, hex_bytes};

verus! {

broadcast use vstd::std_specs::hash::group_hash_axioms;

/// Why a debugger operation failed.
#[derive(Debug, Clone, PartialEq, Eq)]
pub enum DebuggerError {
    Emulator(EmulatorError),
    Memory(MemoryError),
    /// A step was asked for after the program halted or hit its limit.
    AlreadyHalted,
    ExecutionLimit(u64),
    InvalidBreakpoint(u32),
    NothingToUndo,
    NothingToRedo,
    InvalidInput(String),
}

} // verus!

verus! {

/// Where the debugger stands in its step / run cycle.
#[derive(Debug, Clone, PartialEq, Eq)]
pub enum DebuggerState {
    Ready,
    Running,
    AtBreakpoint(u32),
    Halted,
    LimitExceeded,
    Error(String),
}

/// What one step did.
#[derive(Debug)]
pub struct StepResult {
    pub instruction: Option<DisassemblyLine>,
    pub state: DebuggerState,
    /// Names of the registers whose value changed, in the order EAX EBX ECX EDX ESI EDI EBP ESP EIP.
    pub changed_registers: Vec<String>,
    pub changed_memory: Vec<(u32, u8)>,
}

/// How a run stopped.
#[derive(Debug, Clone, PartialEq, Eq)]
pub enum RunResult {
    Breakpoint(u32),
    Halted,
    LimitExceeded(u64),
    Error(String),
}

/// One entry of the execution trace: the state before an instruction ran.
#[derive(Debug, Clone)]
pub struct HistoryEntry {
    pub eip: u32,
    pub cpu_snapshot: CpuState,
    pub instruction_text: String,
}

/// The state the debugger enters after an instruction with result `res`, where
/// `eip` is the pointer after it and `executed` the count of this run so far.
pub open spec fn state_after(res: ExecutionResult, eip: u32, breakpoints: Set<u32>, executed: u64, max: u64) -> DebuggerState {
    match res {
        ExecutionResult::Continue { next_eip } => if breakpoints.contains(next_eip) {
            DebuggerState::AtBreakpoint(next_eip)
        } else if executed >= max {
            DebuggerState::LimitExceeded
        } else {
            DebuggerState::Ready
        },
        ExecutionResult::Halt => DebuggerState::Halted,
        ExecutionResult::Breakpoint => DebuggerState::AtBreakpoint(eip),
        ExecutionResult::Interrupt(_) => DebuggerState::Ready,
    }
}

/// CPU state after applying result `res` to the state `cpu` the instruction left.
pub open spec fn cpu_after(res: ExecutionResult, cpu: CpuState) -> CpuState {
    match res {
        ExecutionResult::Continue { next_eip } => CpuState { eip: next_eip, ..cpu },
        ExecutionResult::Halt => CpuState { halted: true, ..cpu },
        _ => cpu,
    }
}

/// Count plus one, held at the maximum.
pub open spec fn bump(n: u64) -> u64 {
    if n < u64::MAX { (n + 1) as u64 } else { n }
}

/// `s` without its oldest entry while it holds more than `max`.
pub open spec fn trimmed<T>(s: Seq<T>, max: nat) -> Seq<T> {
    if s.len() > max { s.drop_first() } else { s }
}

/// `b` is `a` after one successful step.
pub open spec fn steps_to(a: Debugger, b: Debugger) -> bool {
    &&& a.step_owed()
    &&& exists|res: ExecutionResult, mid: CpuState, e: HistoryEntry|
        #[trigger] a.stepped_to(&b, a.next_instruction()->0, res, mid, e)
}

/// A run goes on from `d`: no stop state, and the ceiling not reached.
pub open spec fn continues(d: Debugger) -> bool {
    (d.spec_state() is Ready || d.spec_state() is Running) && d.spec_executed() < d.spec_max()
}

/// `fin` is `d` as a run leaves it, with state `st`.
pub open spec fn left_as(fin: Debugger, d: Debugger, st: DebuggerState) -> bool {
    &&& fin.spec_cpu() == d.spec_cpu()
    &&& fin.spec_memory() == d.spec_memory()
    &&& fin.spec_executed() == d.spec_executed()
    &&& fin.spec_total() == d.spec_total()
    &&& fin.trace() == d.trace()
    &&& fin.breakpoint_set() == d.breakpoint_set()
    &&& fin.spec_state() == st
}

/// `ds` are the states a run from `d0` with ceiling `max` passes through, and `r`
/// and `fin` are its result and final state: it starts from `d0` with the count at
/// zero, goes on by successful steps while no stop state and the ceiling are
/// reached, and ends with an error exactly when the next step is not owed, or
/// else at the first breakpoint, halt or reached ceiling.
pub open spec fn run_trace(d0: Debugger, max: u64, ds: Seq<Debugger>, r: Result<RunResult, DebuggerError>, fin: Debugger) -> bool {
    &&& ds.len() >= 1
    &&& ds[0].spec_cpu() == d0.spec_cpu() && ds[0].spec_memory() == d0.spec_memory()
    &&& ds[0].spec_executed() == 0 && ds[0].spec_state() is Running && ds[0].spec_max() == max
    &&& ds[0].spec_total() == d0.spec_total() && ds[0].trace() == d0.trace()
    &&& ds[0].breakpoint_set() == d0.breakpoint_set()
    &&& forall|i: int| 0 <= i < ds.len() - 1 ==> #[trigger] steps_to(ds[i], ds[i + 1])
    &&& forall|i: int| 1 <= i < ds.len() - 1 ==> #[trigger] continues(ds[i])
    &&& match r {
        Err(_) => (ds.len() == 1 || continues(ds.last())) && !ds.last().step_owed(),
        Ok(RunResult::Breakpoint(a)) => ds.len() >= 2 && ds.last().spec_state() == DebuggerState::AtBreakpoint(a)
            && left_as(fin, ds.last(), ds.last().spec_state()),
        Ok(RunResult::Halted) => ds.len() >= 2 && ds.last().spec_state() is Halted
            && left_as(fin, ds.last(), ds.last().spec_state()),
        Ok(RunResult::LimitExceeded(n)) => ds.len() >= 2 && n == ds.last().spec_executed()
            && (ds.last().spec_state() is LimitExceeded || (ds.last().spec_state() is Ready || ds.last().spec_state() is Running)
                && ds.last().spec_executed() >= max)
            && left_as(fin, ds.last(), DebuggerState::LimitExceeded),
        Ok(RunResult::Error(_)) => false,
    }
}

/// The emulator with breakpoints, limits, an execution trace and a patch log.
pub struct Debugger {
    pub cpu: CpuState,
    pub memory: Memory,
    executor: Executor,
    pub state: DebuggerState,
    pub breakpoints: HashSet<u32>,
    pub max_instructions: u64,
    pub instructions_executed: u64,
    pub total_instructions: u64,
    history: VecDeque<HistoryEntry>,
    max_history: usize,
    patch_history: History,
    pub bookmarks: BookmarkManager,
    initial_cpu: CpuState,
    initial_memory: Vec<u8>,
}

impl Debugger {
    pub closed spec fn spec_cpu(&self) -> CpuState {
        self.cpu
    }

    pub closed spec fn spec_memory(&self) -> Memory {
        self.memory
    }

    pub closed spec fn spec_state(&self) -> DebuggerState {
        self.state
    }

    pub closed spec fn spec_max(&self) -> u64 {
        self.max_instructions
    }

    pub closed spec fn spec_executed(&self) -> u64 {
        self.instructions_executed
    }

    pub closed spec fn spec_total(&self) -> u64 {
        self.total_instructions
    }

    pub closed spec fn breakpoint_set(&self) -> Set<u32> {
        self.breakpoints@
    }

    /// The execution trace, oldest first.
    pub closed spec fn trace(&self) -> Seq<HistoryEntry> {
        self.history@
    }

    pub closed spec fn trace_bound(&self) -> nat {
        self.max_history as nat
    }

    pub closed spec fn patches(&self) -> History {
        self.patch_history
    }

    pub closed spec fn initial_cpu_state(&self) -> CpuState {
        self.initial_cpu
    }

    pub closed spec fn initial_bytes(&self) -> Seq<u8> {
        self.initial_memory@
    }

    /// The trace and patch log have room, and memory and its saved copy agree in size.
    pub closed spec fn wf(&self) -> bool {
        &&& self.max_history >= 1
        &&& self.patch_history.max() >= 1
        &&& self.executor.wf()
        &&& self.initial_memory@.len() == self.memory.len_spec()
    }

    /// The bounds that well-formedness gives.
    pub proof fn lemma_wf_bounds(&self)
        requires
            self.wf(),
        ensures
            self.trace_bound() >= 1,
            self.patches().max() >= 1,
    {
    }

    fn build(cpu: CpuState, memory: Memory) -> (r: Self)
        ensures
            r.wf(),
            r.spec_cpu() == cpu,
            r.spec_memory() == memory,
            r.spec_state() == DebuggerState::Ready,
            r.breakpoint_set() == Set::<u32>::empty(),
            r.spec_max() == 100_000,
            r.spec_executed() == 0,
            r.spec_total() == 0,
            r.trace() == Seq::<HistoryEntry>::empty(),
            r.trace_bound() == 1000,
            r.patches().undo_seq().len() == 0,
            r.patches().redo_seq().len() == 0,
            r.patches().max() == 100,
            r.initial_cpu_state().same_registers(&cpu),
            r.initial_bytes() == memory.bytes(),
    {
        let initial_cpu = cpu.snapshot();
        let initial_memory = copy_bytes(memory.raw());
        let r = Debugger {
            cpu,
            memory,
            executor: Executor::new(),
            state: DebuggerState::Ready,
            breakpoints: HashSet::new(),
            max_instructions: 100_000,
            instructions_executed: 0,
            total_instructions: 0,
            history: VecDeque::new(),
            max_history: 1000,
            patch_history: History::new(100),
            bookmarks: BookmarkManager::new(),
            initial_cpu,
            initial_memory,
        };
        proof {
            assert(r.trace() =~= Seq::<HistoryEntry>::empty());
        }
        r
    }

    /// A debugger over `memory_size` zeroed bytes with a cleared CPU.
    pub fn new(memory_size: usize) -> (r: Self)
        ensures
            r.wf(),
            r.spec_memory().bytes() == Seq::new(memory_size as nat, |i: int| 0u8),
            r.spec_cpu().regs == (crate::cpu::Registers { eax: 0, ebx: 0, ecx: 0, edx: 0, esi: 0, edi: 0, ebp: 0, esp: 0 }) && r.spec_cpu().eip == 0,
            r.spec_state() == DebuggerState::Ready,
            r.breakpoint_set() == Set::<u32>::empty(),
            r.spec_max() == 100_000,
            r.spec_executed() == 0,
            r.trace() == Seq::<HistoryEntry>::empty(),
            r.spec_total() == 0,
            r.trace_bound() == 1000,
            r.patches().undo_seq().len() == 0,
            r.patches().redo_seq().len() == 0,
            r.patches().max() == 100,
    {
        let cpu = CpuState::default();
        Self::build(cpu, Memory::new(memory_size))
    }

    /// A debugger over the puzzle memory layout, starting at `entry_point` with
    /// the stack pointer at `stack_start`.
    pub fn with_puzzle_layout(entry_point: u32, code_start: u32, data_start: u32, stack_start: u32) -> (r: Self)
        requires
            0x1000 <= stack_start,
            stack_start + 0x1000 <= u32::MAX,
        ensures
            r.wf(),
            r.spec_cpu().eip == entry_point,
            r.spec_cpu().regs == (crate::cpu::Registers { eax: 0, ebx: 0, ecx: 0, edx: 0, esi: 0, edi: 0, ebp: 0, esp: stack_start }),
            r.spec_memory().len_spec() == stack_start + 0x1000,
            r.spec_state() == DebuggerState::Ready,
            r.trace() == Seq::<HistoryEntry>::empty(),
            r.spec_executed() == 0,
            r.breakpoint_set() == Set::<u32>::empty(),
            r.spec_max() == 100_000,
            r.spec_total() == 0,
            r.trace_bound() == 1000,
            r.patches().undo_seq().len() == 0,
            r.patches().redo_seq().len() == 0,
            r.patches().max() == 100,
    {
        let memory = Memory::with_puzzle_layout(code_start, data_start, stack_start);
        let cpu = CpuState::new(entry_point, stack_start);
        Self::build(cpu, memory)
    }

    /// Loads code and makes the current memory the state `reset` returns to.
    pub fn load_code(&mut self, address: u32, code: &[u8]) -> (r: Result<(), DebuggerError>)
        ensures
            r is Ok <==> old(self).spec_memory().in_bounds(address, code@.len()),
            r is Ok ==> final(self).spec_memory().bytes() == splice(old(self).spec_memory().bytes(), address as int, code@)
                && final(self).initial_bytes() == final(self).spec_memory().bytes(),
            r is Err ==> final(self).spec_memory().bytes() == old(self).spec_memory().bytes(),
            final(self).spec_cpu() == old(self).spec_cpu(),
            old(self).wf() ==> final(self).wf(),
    {
        match self.memory.load(address, code) {
            Ok(()) => {
                self.initial_memory = copy_bytes(self.memory.raw());
                Ok(())
            },
            Err(e) => Err(DebuggerError::Memory(e)),
        }
    }

    /// Loads data; as `load_code`.
    pub fn load_data(&mut self, address: u32, data: &[u8]) -> (r: Result<(), DebuggerError>)
        ensures
            r is Ok <==> old(self).spec_memory().in_bounds(address, data@.len()),
            r is Ok ==> final(self).spec_memory().bytes() == splice(old(self).spec_memory().bytes(), address as int, data@)
                && final(self).initial_bytes() == final(self).spec_memory().bytes(),
            r is Err ==> final(self).spec_memory().bytes() == old(self).spec_memory().bytes(),
            final(self).spec_cpu() == old(self).spec_cpu(),
            old(self).wf() ==> final(self).wf(),
    {
        self.load_code(address, data)
    }

    pub fn set_entry_point(&mut self, address: u32)
        ensures
            final(self).spec_cpu().eip == address,
            final(self).initial_cpu_state().eip == address,
            old(self).wf() ==> final(self).wf(),
    {
        self.cpu.eip = address;
        self.initial_cpu.eip = address;
    }

    pub fn set_stack_pointer(&mut self, address: u32)
        ensures
            final(self).spec_cpu().regs.esp == address,
            final(self).initial_cpu_state().regs.esp == address,
            old(self).wf() ==> final(self).wf(),
    {
        self.cpu.regs.esp = address;
        self.initial_cpu.regs.esp = address;
    }

    /// Makes the current CPU state and memory the state `reset` returns to.
    pub fn save_initial_state(&mut self)
        ensures
            final(self).initial_cpu_state().same_registers(&old(self).spec_cpu()),
            final(self).initial_bytes() == old(self).spec_memory().bytes(),
            final(self).spec_cpu() == old(self).spec_cpu(),
            final(self).spec_memory() == old(self).spec_memory(),
            old(self).wf() ==> final(self).wf(),
    {
        self.initial_cpu = self.cpu.snapshot();
        self.initial_memory = copy_bytes(self.memory.raw());
    }

    /// Returns to the saved CPU state and memory, clearing the trace and the patch log.
    pub fn reset(&mut self)
        requires
            old(self).wf(),
        ensures
            final(self).wf(),
            final(self).spec_cpu().same_registers(&old(self).initial_cpu_state()),
            final(self).spec_memory().bytes() == old(self).initial_bytes(),
            final(self).breakpoint_set() == old(self).breakpoint_set(),
            final(self).spec_max() == old(self).spec_max(),
            final(self).spec_state() == DebuggerState::Ready,
            final(self).spec_executed() == 0,
            final(self).trace() == Seq::<HistoryEntry>::empty(),
            final(self).patches().undo_seq().len() == 0,
            final(self).patches().redo_seq().len() == 0,
    {
        self.cpu = self.initial_cpu.snapshot();
        let _ = self.memory.load(0, self.initial_memory.as_slice());
        self.state = DebuggerState::Ready;
        self.instructions_executed = 0;
        self.history.clear();
        self.patch_history.clear();
        assert(self.trace() =~= Seq::<HistoryEntry>::empty());
        assert(self.memory.bytes() =~= old(self).initial_memory@);
    }

    pub fn set_breakpoint(&mut self, address: u32)
        requires
            old(self).wf(),
        ensures
            final(self).spec_cpu() == old(self).spec_cpu(),
            final(self).spec_memory() == old(self).spec_memory(),
            final(self).spec_state() == old(self).spec_state(),
            final(self).trace() == old(self).trace(),
            final(self).spec_executed() == old(self).spec_executed(),
            final(self).spec_total() == old(self).spec_total(),
            final(self).patches() == old(self).patches(),
            final(self).wf(),
            final(self).breakpoint_set() == old(self).breakpoint_set().insert(address),
    {
        self.breakpoints.insert(address);
    }

    pub fn remove_breakpoint(&mut self, address: u32)
        requires
            old(self).wf(),
        ensures
            final(self).spec_cpu() == old(self).spec_cpu(),
            final(self).spec_memory() == old(self).spec_memory(),
            final(self).spec_state() == old(self).spec_state(),
            final(self).trace() == old(self).trace(),
            final(self).spec_executed() == old(self).spec_executed(),
            final(self).spec_total() == old(self).spec_total(),
            final(self).patches() == old(self).patches(),
            final(self).wf(),
            final(self).breakpoint_set() == old(self).breakpoint_set().remove(address),
    {
        self.breakpoints.remove(&address);
    }

    /// Adds a breakpoint when there is none at `address`, else removes it; true when it added.
    pub fn toggle_breakpoint(&mut self, address: u32) -> (r: bool)
        requires
            old(self).wf(),
        ensures
            final(self).spec_cpu() == old(self).spec_cpu(),
            final(self).spec_memory() == old(self).spec_memory(),
            final(self).spec_state() == old(self).spec_state(),
            final(self).trace() == old(self).trace(),
            final(self).spec_executed() == old(self).spec_executed(),
            final(self).spec_total() == old(self).spec_total(),
            final(self).patches() == old(self).patches(),
            final(self).wf(),
            r == !old(self).breakpoint_set().contains(address),
            r ==> final(self).breakpoint_set() == old(self).breakpoint_set().insert(address),
            !r ==> final(self).breakpoint_set() == old(self).breakpoint_set().remove(address),
    {
        if self.has_breakpoint(address) {
            self.remove_breakpoint(address);
            false
        } else {
            self.set_breakpoint(address);
            true
        }
    }

    /// `step` refuses to run: the program halted or hit its limit.
    pub open spec fn stopped(&self) -> bool {
        self.spec_state() is Halted || self.spec_state() is LimitExceeded
    }

    /// The instruction at the current instruction pointer.
    pub open spec fn next_instruction(&self) -> Option<InsView> {
        decoded_at(self.spec_cpu(), self.spec_memory())
    }

    /// A step from here succeeds: the instruction at EIP decodes and executes.
    pub open spec fn step_owed(&self) -> bool {
        &&& !self.stopped()
        &&& self.next_instruction() is Some
        &&& outcome(self.next_instruction()->0, self.spec_cpu(), self.spec_memory()) is Some
    }

    /// `new` is this debugger after executing `ins` with result `res`, which left the
    /// CPU in state `mid` before the debugger applied `res`, and trace entry `e`.
    pub open spec fn stepped_to(&self, new: &Debugger, ins: InsView, res: ExecutionResult, mid: CpuState, e: HistoryEntry) -> bool {
        &&& outcome(ins, self.spec_cpu(), self.spec_memory()) == Some((res, mid, new.spec_memory().bytes()))
        &&& new.spec_cpu() == cpu_after(res, mid)
        &&& new.spec_executed() == bump(self.spec_executed())
        &&& new.spec_total() == bump(self.spec_total())
        &&& new.spec_state() == state_after(res, mid.eip, self.breakpoint_set(), new.spec_executed(), self.spec_max())
        &&& e.eip == self.spec_cpu().eip && e.cpu_snapshot.same_registers(&self.spec_cpu())
        &&& new.trace() == trimmed(self.trace().push(e), self.trace_bound())
    }

    /// Executes one instruction. Fails after a halt or a reached limit, and when
    /// the instruction cannot be fetched, decoded or executed.
    pub fn step(&mut self) -> (r: Result<StepResult, DebuggerError>)
        requires
            old(self).wf(),
        ensures
            final(self).wf(),
            final(self).breakpoint_set() == old(self).breakpoint_set(),
            final(self).spec_max() == old(self).spec_max(),
            final(self).trace_bound() == old(self).trace_bound(),
            final(self).patches() == old(self).patches(),
            final(self).spec_memory().same_shape(&old(self).spec_memory()),
            old(self).stopped() ==> r == Err::<StepResult, DebuggerError>(DebuggerError::AlreadyHalted) && *final(self) == *old(self),
            !old(self).stopped() ==> (r is Ok <==> old(self).step_owed()),
            r is Ok ==> exists|res: ExecutionResult, mid: CpuState, e: HistoryEntry|
                #[trigger] old(self).stepped_to(final(self), old(self).next_instruction()->0, res, mid, e),
            r matches Ok(sr) ==> sr.state == final(self).spec_state(),
            !old(self).spec_memory().access_ok(old(self).spec_cpu().eip, 15, false) ==> r is Err,
            r is Err && !(old(self).spec_state() is Halted || old(self).spec_state() is LimitExceeded) ==>
                final(self).trace() == old(self).trace() && final(self).spec_executed() == old(self).spec_executed(),
    {
        match self.state {
            DebuggerState::Halted | DebuggerState::LimitExceeded => {
                return Err(DebuggerError::AlreadyHalted);
            },
            _ => {},
        }
        let old_cpu = self.cpu.snapshot();
        let old_eip = self.cpu.eip;
        let bytes = match self.memory.read_bytes(old_eip, 15) {
            Ok(b) => b,
            Err(e) => return Err(DebuggerError::Emulator(EmulatorError::Memory(e))),
        };
        assert(bytes@ == self.memory.bytes().subrange(old_eip as int, old_eip + 15));
        let (ins, text) = match decode(bytes.as_slice(), old_eip) {
            Some(d) => d,
            None => return Err(DebuggerError::Emulator(EmulatorError::UnsupportedInstruction(old_eip))),
        };
        let length = ins.length as usize;
        let line = DisassemblyLine {
            address: old_eip,
            bytes: copy_bytes(vstd::slice::slice_subrange(bytes.as_slice(), 0, length)),
            text: text.clone(),
            length,
            instruction: ins.clone(),
        };
        let result = match execute(&ins, &mut self.cpu, &mut self.memory) {
            Ok(res) => res,
            Err(e) => {
                return Err(DebuggerError::Emulator(e));
            },
        };
        let ghost mid = self.cpu;
        let entry = HistoryEntry { eip: old_eip, cpu_snapshot: old_cpu.snapshot(), instruction_text: text };
        let ghost e = entry;
        push_bounded(&mut self.history, entry, self.max_history);
        if self.instructions_executed < u64::MAX {
            self.instructions_executed = self.instructions_executed + 1;
        }
        if self.total_instructions < u64::MAX {
            self.total_instructions = self.total_instructions + 1;
        }
        let new_state = settle(&mut self.cpu, result, &self.breakpoints, self.instructions_executed, self.max_instructions);
        self.state = copy_state(&new_state);
        proof {
            assert(old(self).stepped_to(self, ins@, result, mid, e));
        }
        let changed_registers = changed_register_names(&old_cpu, &self.cpu);
        Ok(StepResult { instruction: Some(line), state: new_state, changed_registers, changed_memory: Vec::new() })
    }

    /// Steps until a breakpoint, a halt or the instruction limit of this run.
    pub fn run(&mut self) -> (r: Result<RunResult, DebuggerError>)
        requires
            old(self).wf(),
        ensures
            final(self).wf(),
            final(self).spec_max() == old(self).spec_max(),
            final(self).breakpoint_set() == old(self).breakpoint_set(),
            final(self).patches() == old(self).patches(),
            final(self).spec_memory().same_shape(&old(self).spec_memory()),
            exists|ds: Seq<Debugger>| #[trigger] run_trace(*old(self), old(self).spec_max(), ds, r, *final(self)),
            r matches Ok(RunResult::Halted) ==> final(self).spec_state() is Halted && final(self).spec_cpu().halted,
            r matches Ok(RunResult::Breakpoint(a)) ==> final(self).spec_state() == DebuggerState::AtBreakpoint(a)
                && final(self).spec_cpu().eip == a,
            r matches Ok(RunResult::LimitExceeded(n)) ==> final(self).spec_state() is LimitExceeded
                && n == final(self).spec_executed()
                && (old(self).spec_max() >= 1 ==> n == old(self).spec_max()),
            r is Ok ==> final(self).spec_executed() >= 1
                && (old(self).spec_max() >= 1 ==> final(self).spec_executed() <= old(self).spec_max()),
            !(r matches Ok(RunResult::Error(_))),
    {
        self.instructions_executed = 0;
        self.state = DebuggerState::Running;
        let ghost mut ds: Seq<Debugger> = seq![*self];
        loop
            invariant
                self.wf(),
                self.max_instructions == old(self).max_instructions,
                self.breakpoint_set() == old(self).breakpoint_set(),
                self.patch_history == old(self).patch_history,
                self.memory.same_shape(&old(self).memory),
                self.instructions_executed == 0 || self.instructions_executed < self.max_instructions,
                self.state is Running || self.state is Ready,
                ds.len() >= 1,
                ds.last() == *self,
                ds[0].spec_cpu() == old(self).spec_cpu() && ds[0].spec_memory() == old(self).spec_memory(),
                ds[0].spec_executed() == 0 && ds[0].spec_state() is Running && ds[0].spec_max() == old(self).spec_max(),
                ds[0].spec_total() == old(self).spec_total() && ds[0].trace() == old(self).trace(),
                ds[0].breakpoint_set() == old(self).breakpoint_set(),
                forall|i: int| 0 <= i < ds.len() - 1 ==> #[trigger] steps_to(ds[i], ds[i + 1]),
                forall|i: int| 1 <= i < ds.len() ==> #[trigger] continues(ds[i]),
            decreases self.max_instructions as int + 1 - self.instructions_executed as int,
        {
            let ghost before = *self;
            let result = match self.step() {
                Ok(x) => x,
                Err(e) => {
                    let r = Err(e);
                    assert(run_trace(*old(self), old(self).spec_max(), ds, r, *self));
                    return r;
                },
            };
            proof {
                assert(steps_to(before, *self));
                let ds0 = ds;
                ds = ds.push(*self);
                assert forall|i: int| 0 <= i < ds.len() - 1 implies #[trigger] steps_to(ds[i], ds[i + 1]) by {
                    if i < ds0.len() - 1 { assert(ds[i] == ds0[i] && ds[i + 1] == ds0[i + 1]); }
                }
            }
            match result.state {
                DebuggerState::AtBreakpoint(addr) => {
                    let r = Ok(RunResult::Breakpoint(addr));
                    assert(run_trace(*old(self), old(self).spec_max(), ds, r, *self));
                    return r;
                },
                DebuggerState::Halted => {
                    let r = Ok(RunResult::Halted);
                    assert(run_trace(*old(self), old(self).spec_max(), ds, r, *self));
                    return r;
                },
                DebuggerState::LimitExceeded => {
                    let r = Ok(RunResult::LimitExceeded(self.instructions_executed));
                    assert(run_trace(*old(self), old(self).spec_max(), ds, r, *self));
                    return r;
                },
                DebuggerState::Error(msg) => {
                    return Ok(RunResult::Error(msg));
                },
                _ => {
                    if self.instructions_executed >= self.max_instructions {
                        let ghost last = *self;
                        self.state = DebuggerState::LimitExceeded;
                        let r = Ok(RunResult::LimitExceeded(self.instructions_executed));
                        assert(run_trace(*old(self), old(self).spec_max(), ds, r, *self));
                        return r;
                    }
                    assert(continues(*self));
                },
            }
        }
    }

    /// Runs with the instruction limit set to `count` for this run only.
    pub fn run_n(&mut self, count: u64) -> (r: Result<RunResult, DebuggerError>)
        requires
            old(self).wf(),
        ensures
            final(self).wf(),
            final(self).spec_max() == old(self).spec_max(),
            final(self).breakpoint_set() == old(self).breakpoint_set(),
            final(self).spec_memory().same_shape(&old(self).spec_memory()),
            exists|ds: Seq<Debugger>| #[trigger] run_trace(*old(self), count, ds, r, *final(self)),
            r matches Ok(RunResult::LimitExceeded(n)) ==> (count >= 1 ==> n == count),
            r is Ok && count >= 1 ==> final(self).spec_executed() <= count,
    {
        let original_limit = self.max_instructions;
        self.max_instructions = count;
        self.instructions_executed = 0;
        let ghost mid = *self;
        let result = self.run();
        let ghost ran = *self;
        self.max_instructions = original_limit;
        proof {
            let ds = choose|ds: Seq<Debugger>| #[trigger] run_trace(mid, count, ds, result, ran);
            assert(run_trace(*old(self), count, ds, result, *self));
        }
        result
    }

    /// Undoes the most recent step on the CPU (memory is not rewound) and returns
    /// its trace entry; `None` when the trace is empty.
    pub fn step_back(&mut self) -> (r: Option<HistoryEntry>)
        requires
            old(self).wf(),
        ensures
            final(self).wf(),
            final(self).spec_memory() == old(self).spec_memory(),
            final(self).breakpoint_set() == old(self).breakpoint_set(),
            final(self).trace_bound() == old(self).trace_bound(),
            old(self).trace().len() == 0 ==> r is None && *final(self) == *old(self),
            old(self).trace().len() > 0 ==> {
                &&& r == Some(old(self).trace().last())
                &&& final(self).trace() == old(self).trace().drop_last()
                &&& final(self).spec_cpu().same_registers(&old(self).trace().last().cpu_snapshot)
                &&& final(self).spec_state() == DebuggerState::Ready
            },
    {
        if self.history.len() == 0 {
            return None;
        }
        match self.history.pop_back() {
            Some(entry) => {
                self.cpu = entry.cpu_snapshot.snapshot();
                self.state = DebuggerState::Ready;
                Some(entry)
            },
            None => None,
        }
    }

    /// Up to `count` instructions disassembled from the current instruction pointer.
    pub fn disassemble(&self, count: usize) -> (r: Vec<DisassemblyLine>)
        requires
            self.wf(),
        ensures
            r@.len() <= count,
            count <= usize::MAX / 15 && self.spec_memory().access_ok(self.spec_cpu().eip, (count * 15) as nat, false) && self.spec_cpu().eip + count * 15 <= u32::MAX
                ==> is_listing(r@, self.spec_memory().bytes().subrange(self.spec_cpu().eip as int, self.spec_cpu().eip + count * 15), self.spec_cpu().eip, count, 32),
    {
        self.executor.disassemble(&self.memory, self.cpu.eip, count)
    }

    /// Up to `count` instructions disassembled from `address`.
    pub fn disassemble_at(&self, address: u32, count: usize) -> (r: Vec<DisassemblyLine>)
        requires
            self.wf(),
        ensures
            r@.len() <= count,
            count <= usize::MAX / 15 && self.spec_memory().access_ok(address, (count * 15) as nat, false) && address + count * 15 <= u32::MAX
                ==> is_listing(r@, self.spec_memory().bytes().subrange(address as int, address + count * 15), address, count, 32),
    {
        self.executor.disassemble(&self.memory, address, count)
    }

    /// Overwrites memory at `address` with `bytes` and records the change so it
    /// can be undone; clears what could be redone.
    pub fn patch(&mut self, address: u32, bytes: &[u8]) -> (r: Result<(), DebuggerError>)
        requires
            old(self).wf(),
        ensures
            final(self).wf(),
            final(self).spec_cpu() == old(self).spec_cpu(),
            final(self).spec_memory().same_shape(&old(self).spec_memory()),
            r is Ok <==> old(self).spec_memory().access_ok(address, bytes@.len(), false)
                && old(self).spec_memory().access_ok(address, bytes@.len(), true),
            r is Ok ==> {
                let before = old(self).spec_memory().bytes();
                &&& final(self).spec_memory().bytes() == splice(before, address as int, bytes@)
                &&& final(self).patches().undo_seq() == crate::history::bounded(
                    old(self).patches().undo_seq().push(PatchView {
                        address,
                        old_bytes: before.subrange(address as int, address + bytes@.len()),
                        new_bytes: bytes@,
                    }), old(self).patches().max())
                &&& final(self).patches().redo_seq().len() == 0
                &&& final(self).patches().max() == old(self).patches().max()
            },
            r is Err ==> final(self).spec_memory().bytes() == old(self).spec_memory().bytes()
                && final(self).patches() == old(self).patches(),
            r matches Err(e) ==> e matches DebuggerError::Memory(me)
                && if old(self).spec_memory().access_ok(address, bytes@.len(), false) {
                    old(self).spec_memory().error_matches(me, address, bytes@.len(), true)
                } else {
                    old(self).spec_memory().error_matches(me, address, bytes@.len(), false)
                },
    {
        let old_bytes = match self.memory.read_bytes(address, bytes.len()) {
            Ok(b) => b,
            Err(e) => return Err(DebuggerError::Memory(e)),
        };
        match self.memory.write_bytes(address, bytes) {
            Ok(()) => {},
            Err(e) => return Err(DebuggerError::Memory(e)),
        }
        let patch = MemoryPatch::new(address, old_bytes, copy_bytes(bytes));
        self.patch_history.record(patch);
        Ok(())
    }

    /// Restores the bytes the most recent patch replaced.
    pub fn undo_patch(&mut self) -> (r: Result<(), DebuggerError>)
        requires
            old(self).wf(),
        ensures
            final(self).wf(),
            final(self).spec_cpu() == old(self).spec_cpu(),
            final(self).spec_memory().same_shape(&old(self).spec_memory()),
            old(self).patches().undo_seq().len() == 0 ==> r == Err::<(), DebuggerError>(DebuggerError::NothingToUndo)
                && final(self).spec_memory() == old(self).spec_memory() && final(self).patches() == old(self).patches(),
            old(self).patches().undo_seq().len() > 0 ==> {
                let p = old(self).patches().undo_seq().last();
                &&& final(self).patches().undo_seq() == old(self).patches().undo_seq().drop_last()
                &&& final(self).patches().redo_seq() == old(self).patches().redo_seq().push(p)
                &&& final(self).patches().max() == old(self).patches().max()
                &&& (r is Ok <==> old(self).spec_memory().access_ok(p.address, p.old_bytes.len(), true))
                &&& (r is Ok ==> final(self).spec_memory().bytes() == splice(old(self).spec_memory().bytes(), p.address as int, p.old_bytes))
                &&& (r is Err ==> final(self).spec_memory().bytes() == old(self).spec_memory().bytes())
            },
    {
        match self.patch_history.undo() {
            Some(patch) => match self.memory.write_bytes(patch.address, patch.new_bytes.as_slice()) {
                Ok(()) => Ok(()),
                Err(e) => Err(DebuggerError::Memory(e)),
            },
            None => Err(DebuggerError::NothingToUndo),
        }
    }

    /// Re-applies the most recently undone patch.
    pub fn redo_patch(&mut self) -> (r: Result<(), DebuggerError>)
        requires
            old(self).wf(),
        ensures
            final(self).wf(),
            final(self).spec_cpu() == old(self).spec_cpu(),
            final(self).spec_memory().same_shape(&old(self).spec_memory()),
            old(self).patches().redo_seq().len() == 0 ==> r == Err::<(), DebuggerError>(DebuggerError::NothingToRedo)
                && final(self).spec_memory() == old(self).spec_memory() && final(self).patches() == old(self).patches(),
            old(self).patches().redo_seq().len() > 0 ==> {
                let p = old(self).patches().redo_seq().last();
                &&& final(self).patches().redo_seq() == old(self).patches().redo_seq().drop_last()
                &&& final(self).patches().undo_seq() == old(self).patches().undo_seq().push(p)
                &&& final(self).patches().max() == old(self).patches().max()
                &&& (r is Ok <==> old(self).spec_memory().access_ok(p.address, p.new_bytes.len(), true))
                &&& (r is Ok ==> final(self).spec_memory().bytes() == splice(old(self).spec_memory().bytes(), p.address as int, p.new_bytes))
                &&& (r is Err ==> final(self).spec_memory().bytes() == old(self).spec_memory().bytes())
            },
    {
        match self.patch_history.redo() {
            Some(patch) => match self.memory.write_bytes(patch.address, patch.new_bytes.as_slice()) {
                Ok(()) => Ok(()),
                Err(e) => Err(DebuggerError::Memory(e)),
            },
            None => Err(DebuggerError::NothingToRedo),
        }
    }

    pub fn can_undo(&self) -> (r: bool)
        ensures
            r == (self.patches().undo_seq().len() > 0),
    {
        self.patch_history.can_undo()
    }

    pub fn can_redo(&self) -> (r: bool)
        ensures
            r == (self.patches().redo_seq().len() > 0),
    {
        self.patch_history.can_redo()
    }

    pub fn undo_count(&self) -> (r: usize)
        ensures
            r == self.patches().undo_seq().len(),
    {
        self.patch_history.undo_count()
    }

    pub fn redo_count(&self) -> (r: usize)
        ensures
            r == self.patches().redo_seq().len(),
    {
        self.patch_history.redo_count()
    }

    /// The execution trace, oldest first.
    pub fn history(&self) -> (r: &VecDeque<HistoryEntry>)
        ensures
            r@ == self.trace(),
    {
        &self.history
    }

    pub fn has_breakpoint(&self, address: u32) -> (r: bool)
        ensures
            r == self.breakpoint_set().contains(address),
    {
        self.breakpoints.contains(&address)
    }
}

/// Names of the registers whose value differs between `a` and `b`.
pub open spec fn changed_names(a: CpuState, b: CpuState) -> Seq<Seq<char>> {
    Seq::<Seq<char>>::empty() + (if a.regs.eax != b.regs.eax { seq!["EAX"@] } else { Seq::<Seq<char>>::empty() })
        + (if a.regs.ebx != b.regs.ebx { seq!["EBX"@] } else { Seq::<Seq<char>>::empty() })
        + (if a.regs.ecx != b.regs.ecx { seq!["ECX"@] } else { Seq::<Seq<char>>::empty() })
        + (if a.regs.edx != b.regs.edx { seq!["EDX"@] } else { Seq::<Seq<char>>::empty() })
        + (if a.regs.esi != b.regs.esi { seq!["ESI"@] } else { Seq::<Seq<char>>::empty() })
        + (if a.regs.edi != b.regs.edi { seq!["EDI"@] } else { Seq::<Seq<char>>::empty() })
        + (if a.regs.ebp != b.regs.ebp { seq!["EBP"@] } else { Seq::<Seq<char>>::empty() })
        + (if a.regs.esp != b.regs.esp { seq!["ESP"@] } else { Seq::<Seq<char>>::empty() })
        + (if a.eip != b.eip { seq!["EIP"@] } else { Seq::<Seq<char>>::empty() })
}

pub open spec fn texts(v: Seq<String>) -> Seq<Seq<char>> {
    v.map_values(|s: String| s@)
}

fn push_text(v: &mut Vec<String>, name: &str)
    ensures
        texts(final(v)@) == texts(old(v)@).push(name@),
{
    v.push(name.to_owned());
    assert(texts(final(v)@) =~= texts(old(v)@).push(name@));
}

/// Appends `e`, then drops the oldest entry while there are more than `max`.
fn push_bounded(h: &mut VecDeque<HistoryEntry>, e: HistoryEntry, max: usize)
    ensures
        final(h)@ == trimmed(old(h)@.push(e), max as nat),
{
    let ghost t = h@;
    h.push_back(e);
    if h.len() > max {
        h.pop_front();
    }
    assert(h@ =~= trimmed(t.push(e), max as nat));
}

/// Applies an instruction result to the CPU and gives the debugger state it leads to.
fn settle(cpu: &mut CpuState, result: ExecutionResult, breakpoints: &HashSet<u32>, executed: u64, max: u64) -> (r: DebuggerState)
    ensures
        *final(cpu) == cpu_after(result, *old(cpu)),
        r == state_after(result, old(cpu).eip, breakpoints@, executed, max),
{
    match result {
        ExecutionResult::Continue { next_eip } => {
            cpu.eip = next_eip;
            if breakpoints.contains(&next_eip) {
                DebuggerState::AtBreakpoint(next_eip)
            } else if executed >= max {
                DebuggerState::LimitExceeded
            } else {
                DebuggerState::Ready
            }
        },
        ExecutionResult::Halt => {
            cpu.halted = true;
            DebuggerState::Halted
        },
        ExecutionResult::Breakpoint => DebuggerState::AtBreakpoint(cpu.eip),
        ExecutionResult::Interrupt(_) => DebuggerState::Ready,
    }
}

/// A copy of a state; an `Error` message is copied without a claim on its text.
pub fn copy_state(s: &DebuggerState) -> (r: DebuggerState)
    ensures
        !(s is Error) ==> r == *s,
        r is Error <==> s is Error,
{
    match s {
        DebuggerState::Ready => DebuggerState::Ready,
        DebuggerState::Running => DebuggerState::Running,
        DebuggerState::AtBreakpoint(a) => DebuggerState::AtBreakpoint(*a),
        DebuggerState::Halted => DebuggerState::Halted,
        DebuggerState::LimitExceeded => DebuggerState::LimitExceeded,
        DebuggerState::Error(m) => DebuggerState::Error(m.clone()),
    }
}

fn note_change(v: &mut Vec<String>, changed: bool, name: &str)
    ensures
        texts(final(v)@) == texts(old(v)@) + if changed { seq![name@] } else { Seq::<Seq<char>>::empty() },
{
    if changed {
        push_text(v, name);
    } else {
        assert(texts(v@) + Seq::<Seq<char>>::empty() =~= texts(v@));
    }
}

/// The registers that changed from `old` to `new`.
pub fn changed_register_names(old: &CpuState, new: &CpuState) -> (r: Vec<String>)
    ensures
        texts(r@) == changed_names(*old, *new),
{
    let mut v: Vec<String> = Vec::new();
    assert(texts(v@) =~= Seq::<Seq<char>>::empty());
    note_change(&mut v, old.regs.eax != new.regs.eax, "EAX");
    note_change(&mut v, old.regs.ebx != new.regs.ebx, "EBX");
    note_change(&mut v, old.regs.ecx != new.regs.ecx, "ECX");
    note_change(&mut v, old.regs.edx != new.regs.edx, "EDX");
    note_change(&mut v, old.regs.esi != new.regs.esi, "ESI");
    note_change(&mut v, old.regs.edi != new.regs.edi, "EDI");
    note_change(&mut v, old.regs.ebp != new.regs.ebp, "EBP");
    note_change(&mut v, old.regs.esp != new.regs.esp, "ESP");
    note_change(&mut v, old.eip != new.eip, "EIP");
    assert(texts(v@) =~= changed_names(*old, *new));
    v
}

/// Undo and redo of a patch are exact. Given `d1` after a successful
/// `patch(address, new)` on `d0`, `d2` after a successful `undo_patch` on `d1`, and
/// `d3` after a successful `redo_patch` on `d2`: `d2` holds the bytes of `d0` and
/// `d3` the bytes of `d1`.
pub proof fn law_undo_redo_patch(d0: Debugger, d1: Debugger, d2: Debugger, d3: Debugger, address: u32, new: Seq<u8>)
    requires
        d0.wf(),
        address + new.len() <= d0.spec_memory().len_spec(),
        d1.spec_memory().bytes() == splice(d0.spec_memory().bytes(), address as int, new),
        d1.patches().undo_seq() == crate::history::bounded(
            d0.patches().undo_seq().push(PatchView {
                address,
                old_bytes: d0.spec_memory().bytes().subrange(address as int, address + new.len()),
                new_bytes: new,
            }), d0.patches().max()),
        d2.spec_memory().bytes() == splice(d1.spec_memory().bytes(), d1.patches().undo_seq().last().address as int,
            d1.patches().undo_seq().last().old_bytes),
        d2.patches().redo_seq() == d1.patches().redo_seq().push(d1.patches().undo_seq().last()),
        d3.spec_memory().bytes() == splice(d2.spec_memory().bytes(), d2.patches().redo_seq().last().address as int,
            d2.patches().redo_seq().last().new_bytes),
    ensures
        d2.spec_memory().bytes() == d0.spec_memory().bytes(),
        d3.spec_memory().bytes() == d1.spec_memory().bytes(),
{
    d0.lemma_wf_bounds();
    let before = d0.spec_memory().bytes();
    let p = PatchView { address, old_bytes: before.subrange(address as int, address + new.len()), new_bytes: new };
    let pushed = d0.patches().undo_seq().push(p);
    assert(pushed.last() == p);
    if pushed.len() > d0.patches().max() {
        assert(pushed.drop_first().last() == p);
    }
    assert(d2.spec_memory().bytes() =~= before);
    assert(d3.spec_memory().bytes() =~= d1.spec_memory().bytes());
}

/// `step_back` right after a successful `step` brings back the registers, pointer,
/// flags and halted flag from before the step, and the trace it had (when the step
/// did not push the oldest entry out).
pub proof fn law_step_back_undoes_step(
    d0: Debugger,
    d1: Debugger,
    d2: Debugger,
    ins: InsView,
    res: ExecutionResult,
    mid: CpuState,
    e: HistoryEntry,
)
    requires
        d0.wf(),
        d0.stepped_to(&d1, ins, res, mid, e),
        d1.trace().len() > 0,
        d2.trace() == d1.trace().drop_last(),
        d2.spec_cpu().same_registers(&d1.trace().last().cpu_snapshot),
    ensures
        d2.spec_cpu().same_registers(&d0.spec_cpu()),
        d0.trace().len() < d0.trace_bound() ==> d2.trace() == d0.trace(),
{
    d0.lemma_wf_bounds();
    let t = d0.trace().push(e);
    assert(t.last() == e);
    if t.len() > d0.trace_bound() {
        assert(t.drop_first().last() == e);
    } else {
        assert(t.drop_last() =~= d0.trace());
    }
}

/// `v` when present, else `d`.
pub open spec fn or_keep(v: Option<u32>, d: u32) -> u32 {
    match v {
        Some(x) => x,
        None => d,
    }
}

fn set_if_present(slot: &mut u32, v: Option<u32>)
    ensures
        *final(slot) == or_keep(v, *old(slot)),
{
    if let Some(x) = v {
        *slot = x;
    }
}

/// `puzzle` can be set up: its stack leaves room, its entry point is an address,
/// its code and data are hex that fits in memory.
pub open spec fn setup_ok(puzzle: &Puzzle) -> bool {
    let s = puzzle.setup;
    let size = s.stack_start + 0x1000;
    let c = cleaned_code_hex(s.code.bytes@);
    &&& 0x1000 <= s.stack_start && s.stack_start + 0x1000 <= u32::MAX
    &&& s.code_start + s.code.entry_point <= u32::MAX
    &&& c.len() % 2 == 0 && all_hex(c)
    &&& s.code_start + hex_bytes(c).len() <= size
    &&& match s.data {
        None => true,
        Some(d) => {
            let dc = cleaned_code_hex(d.bytes@);
            dc.len() % 2 == 0 && all_hex(dc) && s.data_start + hex_bytes(dc).len() <= size
        },
    }
}

/// A debugger ready to play `puzzle`: puzzle memory layout, code and data loaded,
/// the given registers set, and this state saved as the reset point. Fails on a
/// layout whose stack does not fit, an entry point past the address space, bad hex,
/// or code or data that does not fit in memory.
pub fn setup_debugger(puzzle: &Puzzle) -> (r: Result<Debugger, String>)
    ensures
        r is Ok <==> setup_ok(puzzle),
        r matches Ok(d) ==> {
            let s = puzzle.setup;
            let regs = d.spec_cpu().regs;
            &&& d.wf()
            &&& d.spec_cpu().eip == s.code_start + s.code.entry_point
            &&& regs.eax == or_keep(s.registers.eax, 0) && regs.ebx == or_keep(s.registers.ebx, 0)
            &&& regs.ecx == or_keep(s.registers.ecx, 0) && regs.edx == or_keep(s.registers.edx, 0)
            &&& regs.esi == or_keep(s.registers.esi, 0) && regs.edi == or_keep(s.registers.edi, 0)
            &&& regs.ebp == or_keep(s.registers.ebp, 0) && regs.esp == or_keep(s.registers.esp, s.stack_start)
            &&& d.spec_memory().len_spec() == s.stack_start + 0x1000
            &&& d.initial_cpu_state().same_registers(&d.spec_cpu())
            &&& d.initial_bytes() == d.spec_memory().bytes()
            &&& (s.data is None ==> d.spec_memory().bytes().subrange(s.code_start as int,
                    s.code_start + hex_bytes(cleaned_code_hex(s.code.bytes@)).len()) == hex_bytes(cleaned_code_hex(s.code.bytes@)))
        },
{
    let s = &puzzle.setup;
    if s.stack_start < 0x1000 || s.stack_start > u32::MAX - 0x1000 {
        return Err("Stack start must leave room for the stack".to_string());
    }
    if s.code_start > u32::MAX - s.code.entry_point {
        return Err("Entry point is past the address space".to_string());
    }
    let mut debugger = Debugger::with_puzzle_layout(puzzle.entry_point(), s.code_start, s.data_start, s.stack_start);
    let code = puzzle.code_bytes()?;
    if debugger.load_code(s.code_start, code.as_slice()).is_err() {
        return Err("Code does not fit in memory".to_string());
    }
    let ghost after_code = debugger.spec_memory().bytes();
    proof {
        crate::memory::law_read_after_write_bytes(after_code, s.code_start, code@);
    }
    if let Some(data) = puzzle.data_bytes()? {
        if debugger.load_data(s.data_start, data.as_slice()).is_err() {
            return Err("Data does not fit in memory".to_string());
        }
    }
    let r = &s.registers;
    set_if_present(&mut debugger.cpu.regs.eax, r.eax);
    set_if_present(&mut debugger.cpu.regs.ebx, r.ebx);
    set_if_present(&mut debugger.cpu.regs.ecx, r.ecx);
    set_if_present(&mut debugger.cpu.regs.edx, r.edx);
    set_if_present(&mut debugger.cpu.regs.esi, r.esi);
    set_if_present(&mut debugger.cpu.regs.edi, r.edi);
    set_if_present(&mut debugger.cpu.regs.ebp, r.ebp);
    set_if_present(&mut debugger.cpu.regs.esp, r.esp);
    debugger.save_initial_state();
    Ok(debugger)
}

} // verus!
