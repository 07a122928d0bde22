//! Instruction semantics: the effect of one decoded instruction on CPU and memory.
use vstd::prelude::*;
use crate::cpu::{CpuState, Register};
use crate::decoder::{DecodedInstruction, Disassembler, DisassemblyLine, InsView, MemOperand, Mnemonic, Operand, decode_in_mode, decoded, is_listing};
use crate::flags::{Eflags, arithmetic_flags, logical_flags, inc_flags, dec_flags};
use crate::memory::{Memory, MemoryError, le_u32, splice, u32_bytes};

verus! {

/// Why an instruction could not be executed.
#[derive(Debug, Clone, PartialEq, Eq)]
pub enum EmulatorError {
    Memory(MemoryError),
    /// No known instruction at the given address.
    UnsupportedInstruction(u32),
    /// An operand of the instruction at the given address cannot be used.
    InvalidOperand(u32),
    DivisionByZero,
    Halted,
    ExecutionLimitExceeded,
}

/// What happened after one instruction.
#[derive(Debug, Clone, Copy, PartialEq, Eq, Structural)]
pub enum ExecutionResult {
    Continue { next_eip: u32 },
    Halt,
    Breakpoint,
    Interrupt(u8),
}

/// The result, CPU state and memory bytes after an instruction; `None` when it fails.
pub type Outcome = Option<(ExecutionResult, CpuState, Seq<u8>)>;

pub open spec fn wrap(x: int) -> u32 {
    (x % 0x1_0000_0000) as u32
}

/// `displacement + base + index * scale`, wrapping at 32 bits; absent registers count 0.
pub open spec fn effective_address(m: MemOperand, cpu: CpuState) -> u32 {
    let b: int = match m.base {
        Some(r) => cpu.reg(r) as int,
        None => 0,
    };
    let x: int = match m.index {
        Some(r) => wrap(cpu.reg(r) as int * m.scale as int) as int,
        None => 0,
    };
    wrap(m.displacement as int + b + x)
}

/// The value an operand reads, or `None` when it cannot be read.
pub open spec fn operand_value(op: Operand, cpu: CpuState, mem: Memory) -> Option<u32> {
    match op {
        Operand::Reg(r) => Some(cpu.reg(r)),
        Operand::Imm(v) => Some(v),
        Operand::Mem(m) => {
            let a = effective_address(m, cpu);
            if mem.access_ok(a, 4, false) { Some(le_u32(mem.bytes(), a as int)) } else { None }
        },
        _ => None,
    }
}

/// The 32-bit value at `a`, when it may be read.
pub open spec fn load_u32(mem: Memory, a: u32) -> Option<u32> {
    if mem.access_ok(a, 4, false) { Some(le_u32(mem.bytes(), a as int)) } else { None }
}

/// `bytes` with `v` stored at `a`, when `a` may be written.
pub open spec fn store_u32(mem: Memory, bytes: Seq<u8>, a: u32, v: u32) -> Option<Seq<u8>> {
    if mem.access_ok(a, 4, true) { Some(splice(bytes, a as int, u32_bytes(v))) } else { None }
}

/// CPU state and bytes after writing `v` to an operand, or `None` when it cannot be written.
pub open spec fn stored(op: Operand, cpu: CpuState, mem: Memory, bytes: Seq<u8>, v: u32) -> Option<(CpuState, Seq<u8>)> {
    match op {
        Operand::Reg(r) => Some((cpu.with_reg(r, v), bytes)),
        Operand::Mem(m) => match store_u32(mem, bytes, effective_address(m, cpu), v) {
            Some(b) => Some((cpu, b)),
            None => None,
        },
        _ => None,
    }
}

/// Continue at `next` after writing `v` to `op`.
pub open spec fn continue_after_store(op: Operand, cpu: CpuState, mem: Memory, v: u32, next: u32) -> Outcome {
    match stored(op, cpu, mem, mem.bytes(), v) {
        Some((c, b)) => Some((ExecutionResult::Continue { next_eip: next }, c, b)),
        None => None,
    }
}

pub open spec fn with_flags(cpu: CpuState, f: Eflags) -> CpuState {
    CpuState { eflags: f, ..cpu }
}

/// Result of a two-operand ALU mnemonic.
pub open spec fn alu_value(m: Mnemonic, a: u32, b: u32) -> u32 {
    match m {
        Mnemonic::Add => wrap(a + b),
        Mnemonic::Sub | Mnemonic::Cmp => wrap(a - b),
        Mnemonic::And | Mnemonic::Test => a & b,
        Mnemonic::Or => a | b,
        _ => a ^ b,
    }
}

/// Flags after a two-operand ALU mnemonic.
pub open spec fn alu_flags(m: Mnemonic, f: Eflags, a: u32, b: u32) -> Eflags {
    match m {
        Mnemonic::Add => arithmetic_flags(f, alu_value(m, a, b), a, b, false),
        Mnemonic::Sub | Mnemonic::Cmp => arithmetic_flags(f, alu_value(m, a, b), a, b, true),
        _ => logical_flags(f, alu_value(m, a, b)),
    }
}

/// Two's-complement reading of a 32-bit value.
pub open spec fn signed(x: u32) -> int {
    if x >= 0x8000_0000 { x as int - 0x1_0000_0000 } else { x as int }
}

/// The 64-bit two's-complement form of `p`.
pub open spec fn twos64(p: int) -> int {
    p % 0x1_0000_0000_0000_0000
}

/// Bits 0..31 of the 64-bit two's-complement form of `p`.
pub open spec fn low_half(p: int) -> u32 {
    (twos64(p) % 0x1_0000_0000) as u32
}

/// Bits 32..63 of the 64-bit two's-complement form of `p`.
pub open spec fn high_half(p: int) -> u32 {
    (twos64(p) / 0x1_0000_0000) as u32
}

/// A product fits in a signed 32-bit value.
pub open spec fn fits_i32(p: int) -> bool {
    -0x8000_0000 <= p < 0x8000_0000
}

/// Flags after a shift of `value` by `count` (1 to 31) that gave `result`.
pub open spec fn shift_flags(m: Mnemonic, f: Eflags, value: u32, count: u32, result: u32) -> Eflags {
    let cf = match m {
        Mnemonic::Shr => (value >> ((count - 1) as u32)) & 1 != 0,
        Mnemonic::Sar => (((value as i32) >> ((count - 1) as u32)) & 1) != 0,
        _ => (value >> ((32 - count) as u32)) & 1 != 0,
    };
    let of = if count != 1 {
        false
    } else {
        match m {
            Mnemonic::Shr => value >> 31u32 != 0,
            Mnemonic::Sar => false,
            _ => (result >> 31u32 != 0) != cf,
        }
    };
    Eflags { cf, of, ..logical_flags(f, result) }
}

pub open spec fn shift_value(m: Mnemonic, value: u32, count: u32) -> u32 {
    match m {
        Mnemonic::Shr => value >> count,
        Mnemonic::Sar => ((value as i32) >> count) as u32,
        _ => value << count,
    }
}

/// Whether a conditional jump is taken under flags `f`.
pub open spec fn condition(m: Mnemonic, f: Eflags) -> bool {
    match m {
        Mnemonic::Je => f.zf,
        Mnemonic::Jne => !f.zf,
        Mnemonic::Jg => !f.zf && f.sf == f.of,
        Mnemonic::Jge => f.sf == f.of,
        Mnemonic::Jl => f.sf != f.of,
        Mnemonic::Jle => f.zf || f.sf != f.of,
        Mnemonic::Ja => !f.cf && !f.zf,
        Mnemonic::Jae => !f.cf,
        Mnemonic::Jb => f.cf,
        Mnemonic::Jbe => f.cf || f.zf,
        Mnemonic::Js => f.sf,
        Mnemonic::Jns => !f.sf,
        Mnemonic::Jo => f.of,
        _ => !f.of,
    }
}

pub open spec fn is_jcc(m: Mnemonic) -> bool {
    m is Je || m is Jne || m is Jg || m is Jge || m is Jl || m is Jle || m is Ja || m is Jae || m is Jb
        || m is Jbe || m is Js || m is Jns || m is Jo || m is Jno
}

pub open spec fn branch_target(op: Operand) -> Option<u32> {
    match op {
        Operand::NearBranch(t) => Some(t),
        _ => None,
    }
}

/// Address of the instruction after `ins` at `cpu.eip`.
pub open spec fn next_address(ins: InsView, cpu: CpuState) -> u32 {
    wrap(cpu.eip + ins.length)
}

/// The effect of executing `ins` on `cpu` and `mem`.
#[verifier::opaque]
pub open spec fn outcome(ins: InsView, cpu: CpuState, mem: Memory) -> Outcome {
    let next = next_address(ins, cpu);
    let go = ExecutionResult::Continue { next_eip: next };
    let m = ins.mnemonic;
    match m {
        Mnemonic::Mov => match operand_value(ins.op(1), cpu, mem) {
            Some(v) => continue_after_store(ins.op(0), cpu, mem, v, next),
            None => None,
        },
        Mnemonic::Push => match operand_value(ins.op(0), cpu, mem) {
            Some(v) => {
                let sp = wrap(cpu.regs.esp - 4);
                match store_u32(mem, mem.bytes(), sp, v) {
                    Some(b) => Some((go, cpu.with_reg(Register::Esp, sp), b)),
                    None => None,
                }
            },
            None => None,
        },
        Mnemonic::Pop => match load_u32(mem, cpu.regs.esp) {
            Some(v) => continue_after_store(ins.op(0), cpu.with_reg(Register::Esp, wrap(cpu.regs.esp + 4)), mem, v, next),
            None => None,
        },
        Mnemonic::Xchg => match (operand_value(ins.op(0), cpu, mem), operand_value(ins.op(1), cpu, mem)) {
            (Some(a), Some(b)) => match stored(ins.op(0), cpu, mem, mem.bytes(), b) {
                Some((c1, b1)) => match stored(ins.op(1), c1, mem, b1, a) {
                    Some((c2, b2)) => Some((go, c2, b2)),
                    None => None,
                },
                None => None,
            },
            _ => None,
        },
        Mnemonic::Lea => match (ins.op(0), ins.op(1)) {
            (Operand::Reg(r), Operand::Mem(mo)) => Some((go, cpu.with_reg(r, effective_address(mo, cpu)), mem.bytes())),
            _ => None,
        },
        Mnemonic::Add | Mnemonic::Sub | Mnemonic::And | Mnemonic::Or | Mnemonic::Xor => match (
            operand_value(ins.op(0), cpu, mem),
            operand_value(ins.op(1), cpu, mem),
        ) {
            (Some(a), Some(b)) => continue_after_store(ins.op(0), with_flags(cpu, alu_flags(m, cpu.eflags, a, b)), mem, alu_value(m, a, b), next),
            _ => None,
        },
        Mnemonic::Cmp | Mnemonic::Test => match (operand_value(ins.op(0), cpu, mem), operand_value(ins.op(1), cpu, mem)) {
            (Some(a), Some(b)) => Some((go, with_flags(cpu, alu_flags(m, cpu.eflags, a, b)), mem.bytes())),
            _ => None,
        },
        Mnemonic::Inc => match operand_value(ins.op(0), cpu, mem) {
            Some(v) => continue_after_store(ins.op(0), with_flags(cpu, inc_flags(cpu.eflags, wrap(v + 1), v)), mem, wrap(v + 1), next),
            None => None,
        },
        Mnemonic::Dec => match operand_value(ins.op(0), cpu, mem) {
            Some(v) => continue_after_store(ins.op(0), with_flags(cpu, dec_flags(cpu.eflags, wrap(v - 1), v)), mem, wrap(v - 1), next),
            None => None,
        },
        Mnemonic::Neg => match operand_value(ins.op(0), cpu, mem) {
            Some(v) => {
                let f = Eflags { cf: v != 0, ..arithmetic_flags(cpu.eflags, wrap(0 - v), 0, v, true) };
                continue_after_store(ins.op(0), with_flags(cpu, f), mem, wrap(0 - v), next)
            },
            None => None,
        },
        Mnemonic::Not => match operand_value(ins.op(0), cpu, mem) {
            Some(v) => continue_after_store(ins.op(0), cpu, mem, !v, next),
            None => None,
        },
        Mnemonic::Mul => match operand_value(ins.op(0), cpu, mem) {
            Some(v) => {
                let p = cpu.regs.eax as int * v as int;
                let hi = (p / 0x1_0000_0000) as u32;
                let c = CpuState { regs: crate::cpu::Registers { eax: wrap(p), edx: hi, ..cpu.regs }, ..cpu };
                Some((go, with_flags(c, Eflags { cf: hi != 0, of: hi != 0, ..cpu.eflags }), mem.bytes()))
            },
            None => None,
        },
        Mnemonic::Imul => imul_outcome(ins, cpu, mem),
        Mnemonic::Shl | Mnemonic::Sal | Mnemonic::Shr | Mnemonic::Sar => match (operand_value(ins.op(0), cpu, mem), operand_value(ins.op(1), cpu, mem)) {
            (Some(v), Some(c)) => {
                let count = c & 0x1f;
                if count == 0 {
                    Some((go, cpu, mem.bytes()))
                } else {
                    let result = shift_value(m, v, count);
                    continue_after_store(ins.op(0), with_flags(cpu, shift_flags(m, cpu.eflags, v, count, result)), mem, result, next)
                }
            },
            _ => None,
        },
        Mnemonic::Jmp => match branch_target(ins.op(0)) {
            Some(t) => Some((ExecutionResult::Continue { next_eip: t }, cpu, mem.bytes())),
            None => None,
        },
        Mnemonic::Call => {
            let sp = wrap(cpu.regs.esp - 4);
            match (store_u32(mem, mem.bytes(), sp, next), branch_target(ins.op(0))) {
                (Some(b), Some(t)) => Some((ExecutionResult::Continue { next_eip: t }, cpu.with_reg(Register::Esp, sp), b)),
                _ => None,
            }
        },
        Mnemonic::Ret => match load_u32(mem, cpu.regs.esp) {
            Some(ra) => {
                let sp = wrap(cpu.regs.esp + 4);
                let sp2 = match ins.op(0) {
                    Operand::Imm(n) => wrap(sp + n),
                    _ => sp,
                };
                Some((ExecutionResult::Continue { next_eip: ra }, cpu.with_reg(Register::Esp, sp2), mem.bytes()))
            },
            None => None,
        },
        Mnemonic::Nop => Some((go, cpu, mem.bytes())),
        Mnemonic::Hlt => Some((ExecutionResult::Halt, CpuState { halted: true, ..cpu }, mem.bytes())),
        Mnemonic::Int => match ins.op(0) {
            Operand::Imm(v) => Some((
                if v & 0xff == 3 { ExecutionResult::Breakpoint } else { ExecutionResult::Interrupt((v & 0xff) as u8) },
                cpu,
                mem.bytes(),
            )),
            _ => None,
        },
        Mnemonic::Int3 => Some((ExecutionResult::Breakpoint, cpu, mem.bytes())),
        Mnemonic::Other => None,
        _ => if condition(m, cpu.eflags) {
            match branch_target(ins.op(0)) {
                Some(t) => Some((ExecutionResult::Continue { next_eip: t }, cpu, mem.bytes())),
                None => None,
            }
        } else {
            Some((go, cpu, mem.bytes()))
        },
    }
}

/// IMUL in its one-, two- and three-operand forms.
pub open spec fn imul_outcome(ins: InsView, cpu: CpuState, mem: Memory) -> Outcome {
    let next = next_address(ins, cpu);
    let n = ins.operands.len();
    if n == 1 {
        match operand_value(ins.op(0), cpu, mem) {
            Some(v) => {
                let p = signed(cpu.regs.eax) * signed(v);
                let c = CpuState { regs: crate::cpu::Registers { eax: low_half(p), edx: high_half(p), ..cpu.regs }, ..cpu };
                Some((ExecutionResult::Continue { next_eip: next }, with_flags(c, Eflags { cf: !fits_i32(p), of: !fits_i32(p), ..cpu.eflags }), mem.bytes()))
            },
            None => None,
        }
    } else if n == 2 || n == 3 {
        let (x, y) = if n == 2 { (ins.op(0), ins.op(1)) } else { (ins.op(1), ins.op(2)) };
        match (operand_value(x, cpu, mem), operand_value(y, cpu, mem)) {
            (Some(a), Some(b)) => {
                let p = signed(a) * signed(b);
                match stored(ins.op(0), cpu, mem, mem.bytes(), low_half(p)) {
                    Some((c, bytes)) => Some((ExecutionResult::Continue { next_eip: next }, with_flags(c, Eflags { cf: !fits_i32(p), of: !fits_i32(p), ..c.eflags }), bytes)),
                    None => None,
                }
            },
            _ => None,
        }
    } else {
        None
    }
}

/// The 32-bit instruction at `cpu.eip`, decoded from the 15 bytes there; `None`
/// when they cannot be read or hold no valid instruction.
pub open spec fn decoded_at(cpu: CpuState, mem: Memory) -> Option<InsView> {
    if mem.access_ok(cpu.eip, 15, false) {
        decoded(mem.bytes().subrange(cpu.eip as int, cpu.eip + 15), cpu.eip, 32)
    } else {
        None
    }
}

/// `r` reports outcome `o` with the final CPU state `cpu` and bytes `bytes`.
pub open spec fn reports(r: Result<ExecutionResult, EmulatorError>, o: Outcome, cpu: CpuState, bytes: Seq<u8>) -> bool {
    &&& (r is Ok <==> o is Some)
    &&& (r matches Ok(res) ==> o == Some((res, cpu, bytes)))
}

fn effective_address_of(m: &MemOperand, cpu: &CpuState) -> (r: u32)
    ensures
        r == effective_address(*m, *cpu),
{
    let b: u64 = match m.base {
        Some(reg) => cpu.get_register(reg) as u64,
        None => 0,
    };
    let x: u64 = match m.index {
        Some(reg) => {
            let v = cpu.get_register(reg) as u64;
            let s = m.scale as u64;
            assert(v * s <= 0xFFFF_FFFF * 0xFFFF_FFFF) by (nonlinear_arith)
                requires v <= 0xFFFF_FFFF, s <= 0xFFFF_FFFF;
            (v * s) % 0x1_0000_0000
        },
        None => 0,
    };
    ((m.displacement as u64 + b + x) % 0x1_0000_0000) as u32
}

fn read_operand(op: Operand, cpu: &CpuState, mem: &Memory) -> (r: Result<u32, EmulatorError>)
    ensures
        r is Ok <==> operand_value(op, *cpu, *mem) is Some,
        r matches Ok(v) ==> operand_value(op, *cpu, *mem) == Some(v),
{
    match op {
        Operand::Reg(reg) => Ok(cpu.get_register(reg)),
        Operand::Imm(v) => Ok(v),
        Operand::Mem(m) => {
            let a = effective_address_of(&m, cpu);
            match mem.read_u32(a) {
                Ok(v) => Ok(v),
                Err(e) => Err(EmulatorError::Memory(e)),
            }
        },
        _ => Err(EmulatorError::InvalidOperand(cpu.eip)),
    }
}

fn write_operand(op: Operand, cpu: &mut CpuState, mem: &mut Memory, v: u32) -> (r: Result<(), EmulatorError>)
    ensures
        final(mem).same_shape(old(mem)),
        r is Ok <==> stored(op, *old(cpu), *old(mem), old(mem).bytes(), v) is Some,
        r is Ok ==> stored(op, *old(cpu), *old(mem), old(mem).bytes(), v) == Some((*final(cpu), final(mem).bytes())),
        r is Err ==> *final(cpu) == *old(cpu) && final(mem).bytes() == old(mem).bytes(),
{
    match op {
        Operand::Reg(reg) => {
            cpu.set_register(reg, v);
            Ok(())
        },
        Operand::Mem(m) => {
            let a = effective_address_of(&m, cpu);
            match mem.write_u32(a, v) {
                Ok(()) => Ok(()),
                Err(e) => Err(EmulatorError::Memory(e)),
            }
        },
        _ => Err(EmulatorError::InvalidOperand(cpu.eip)),
    }
}

/// Writes `v` to operand `k` and continues at `next`.
fn finish_store(ins: &DecodedInstruction, k: usize, cpu: &mut CpuState, mem: &mut Memory, v: u32, next: u32) -> (r: Result<ExecutionResult, EmulatorError>)
    ensures
        final(mem).same_shape(old(mem)),
        reports(r, continue_after_store(ins.op(k as int), *old(cpu), *old(mem), v, next), *final(cpu), final(mem).bytes()),
{
    match write_operand(ins.operand(k), cpu, mem, v) {
        Ok(()) => Ok(ExecutionResult::Continue { next_eip: next }),
        Err(e) => Err(e),
    }
}

fn push_u32(cpu: &mut CpuState, mem: &mut Memory, v: u32) -> (r: Result<(), EmulatorError>)
    ensures
        final(mem).same_shape(old(mem)),
        ({
            let sp = wrap(old(cpu).regs.esp - 4);
            &&& (r is Ok <==> store_u32(*old(mem), old(mem).bytes(), sp, v) is Some)
            &&& (r is Ok ==> Some(final(mem).bytes()) == store_u32(*old(mem), old(mem).bytes(), sp, v)
                && *final(cpu) == old(cpu).with_reg(Register::Esp, sp))
        }),
{
    let sp = cpu.regs.esp.wrapping_sub(4);
    cpu.regs.esp = sp;
    match mem.write_u32(sp, v) {
        Ok(()) => Ok(()),
        Err(e) => Err(EmulatorError::Memory(e)),
    }
}

fn pop_u32(cpu: &mut CpuState, mem: &Memory) -> (r: Result<u32, EmulatorError>)
    ensures
        (r is Ok <==> load_u32(*mem, old(cpu).regs.esp) is Some),
        r matches Ok(v) ==> Some(v) == load_u32(*mem, old(cpu).regs.esp)
            && *final(cpu) == old(cpu).with_reg(Register::Esp, wrap(old(cpu).regs.esp + 4)),
{
    match mem.read_u32(cpu.regs.esp) {
        Ok(v) => {
            cpu.regs.esp = cpu.regs.esp.wrapping_add(4);
            Ok(v)
        },
        Err(e) => Err(EmulatorError::Memory(e)),
    }
}

fn exec_mov(ins: &DecodedInstruction, cpu: &mut CpuState, mem: &mut Memory, next: u32) -> (r: Result<ExecutionResult, EmulatorError>)
    requires
        ins.mnemonic is Mov,
        next == next_address(ins@, *old(cpu)),
    ensures
        final(mem).same_shape(old(mem)),
        reports(r, outcome(ins@, *old(cpu), *old(mem)), *final(cpu), final(mem).bytes()),
{
    proof {
        reveal(outcome);
    }
    let v = read_operand(ins.operand(1), cpu, mem)?;
    finish_store(ins, 0, cpu, mem, v, next)
}

fn exec_push(ins: &DecodedInstruction, cpu: &mut CpuState, mem: &mut Memory, next: u32) -> (r: Result<ExecutionResult, EmulatorError>)
    requires
        ins.mnemonic is Push,
        next == next_address(ins@, *old(cpu)),
    ensures
        final(mem).same_shape(old(mem)),
        reports(r, outcome(ins@, *old(cpu), *old(mem)), *final(cpu), final(mem).bytes()),
{
    proof {
        reveal(outcome);
    }
    let v = read_operand(ins.operand(0), cpu, mem)?;
    push_u32(cpu, mem, v)?;
    Ok(ExecutionResult::Continue { next_eip: next })
}

fn exec_pop(ins: &DecodedInstruction, cpu: &mut CpuState, mem: &mut Memory, next: u32) -> (r: Result<ExecutionResult, EmulatorError>)
    requires
        ins.mnemonic is Pop,
        next == next_address(ins@, *old(cpu)),
    ensures
        final(mem).same_shape(old(mem)),
        reports(r, outcome(ins@, *old(cpu), *old(mem)), *final(cpu), final(mem).bytes()),
{
    proof {
        reveal(outcome);
    }
    let v = pop_u32(cpu, mem)?;
    finish_store(ins, 0, cpu, mem, v, next)
}

fn exec_xchg(ins: &DecodedInstruction, cpu: &mut CpuState, mem: &mut Memory, next: u32) -> (r: Result<ExecutionResult, EmulatorError>)
    requires
        ins.mnemonic is Xchg,
        next == next_address(ins@, *old(cpu)),
    ensures
        final(mem).same_shape(old(mem)),
        reports(r, outcome(ins@, *old(cpu), *old(mem)), *final(cpu), final(mem).bytes()),
{
    proof {
        reveal(outcome);
    }
    let a = read_operand(ins.operand(0), cpu, mem)?;
    let b = read_operand(ins.operand(1), cpu, mem)?;
    write_operand(ins.operand(0), cpu, mem, b)?;
    write_operand(ins.operand(1), cpu, mem, a)?;
    Ok(ExecutionResult::Continue { next_eip: next })
}

fn exec_lea(ins: &DecodedInstruction, cpu: &mut CpuState, mem: &mut Memory, next: u32) -> (r: Result<ExecutionResult, EmulatorError>)
    requires
        ins.mnemonic is Lea,
        next == next_address(ins@, *old(cpu)),
    ensures
        final(mem).same_shape(old(mem)),
        reports(r, outcome(ins@, *old(cpu), *old(mem)), *final(cpu), final(mem).bytes()),
{
    proof {
        reveal(outcome);
    }
    match (ins.operand(0), ins.operand(1)) {
        (Operand::Reg(reg), Operand::Mem(m)) => {
            let a = effective_address_of(&m, cpu);
            cpu.set_register(reg, a);
            Ok(ExecutionResult::Continue { next_eip: next })
        },
        _ => Err(EmulatorError::InvalidOperand(cpu.eip)),
    }
}

/// ADD and SUB.
#[verifier::rlimit(40)]
fn exec_add_sub(ins: &DecodedInstruction, cpu: &mut CpuState, mem: &mut Memory, next: u32) -> (r: Result<ExecutionResult, EmulatorError>)
    requires
        ins.mnemonic is Add || ins.mnemonic is Sub,
        next == next_address(ins@, *old(cpu)),
    ensures
        final(mem).same_shape(old(mem)),
        reports(r, outcome(ins@, *old(cpu), *old(mem)), *final(cpu), final(mem).bytes()),
{
    proof {
        reveal(outcome);
    }
    let a = read_operand(ins.operand(0), cpu, mem)?;
    let b = read_operand(ins.operand(1), cpu, mem)?;
    let result = if ins.mnemonic == Mnemonic::Add {
        let t = a.wrapping_add(b);
        cpu.eflags.update_arithmetic(t, a, b, false);
        t
    } else {
        let t = a.wrapping_sub(b);
        cpu.eflags.update_arithmetic(t, a, b, true);
        t
    };
    finish_store(ins, 0, cpu, mem, result, next)
}

/// AND, OR and XOR.
fn exec_logic(ins: &DecodedInstruction, cpu: &mut CpuState, mem: &mut Memory, next: u32) -> (r: Result<ExecutionResult, EmulatorError>)
    requires
        ins.mnemonic is And || ins.mnemonic is Or || ins.mnemonic is Xor,
        next == next_address(ins@, *old(cpu)),
    ensures
        final(mem).same_shape(old(mem)),
        reports(r, outcome(ins@, *old(cpu), *old(mem)), *final(cpu), final(mem).bytes()),
{
    proof {
        reveal(outcome);
    }
    let a = read_operand(ins.operand(0), cpu, mem)?;
    let b = read_operand(ins.operand(1), cpu, mem)?;
    let result = match ins.mnemonic {
        Mnemonic::And => a & b,
        Mnemonic::Or => a | b,
        _ => a ^ b,
    };
    cpu.eflags.update_logical(result);
    finish_store(ins, 0, cpu, mem, result, next)
}

/// CMP and TEST: flags only, the result is discarded.
fn exec_compare(ins: &DecodedInstruction, cpu: &mut CpuState, mem: &mut Memory, next: u32) -> (r: Result<ExecutionResult, EmulatorError>)
    requires
        ins.mnemonic is Cmp || ins.mnemonic is Test,
        next == next_address(ins@, *old(cpu)),
    ensures
        final(mem).same_shape(old(mem)),
        reports(r, outcome(ins@, *old(cpu), *old(mem)), *final(cpu), final(mem).bytes()),
{
    proof {
        reveal(outcome);
    }
    let a = read_operand(ins.operand(0), cpu, mem)?;
    let b = read_operand(ins.operand(1), cpu, mem)?;
    if ins.mnemonic == Mnemonic::Cmp {
        cpu.eflags.update_arithmetic(a.wrapping_sub(b), a, b, true);
    } else {
        cpu.eflags.update_logical(a & b);
    }
    Ok(ExecutionResult::Continue { next_eip: next })
}

fn exec_inc(ins: &DecodedInstruction, cpu: &mut CpuState, mem: &mut Memory, next: u32) -> (r: Result<ExecutionResult, EmulatorError>)
    requires
        ins.mnemonic is Inc,
        next == next_address(ins@, *old(cpu)),
    ensures
        final(mem).same_shape(old(mem)),
        reports(r, outcome(ins@, *old(cpu), *old(mem)), *final(cpu), final(mem).bytes()),
{
    proof {
        reveal(outcome);
    }
    let v = read_operand(ins.operand(0), cpu, mem)?;
    let result = v.wrapping_add(1);
    cpu.eflags.update_inc(result, v);
    finish_store(ins, 0, cpu, mem, result, next)
}

fn exec_dec(ins: &DecodedInstruction, cpu: &mut CpuState, mem: &mut Memory, next: u32) -> (r: Result<ExecutionResult, EmulatorError>)
    requires
        ins.mnemonic is Dec,
        next == next_address(ins@, *old(cpu)),
    ensures
        final(mem).same_shape(old(mem)),
        reports(r, outcome(ins@, *old(cpu), *old(mem)), *final(cpu), final(mem).bytes()),
{
    proof {
        reveal(outcome);
    }
    let v = read_operand(ins.operand(0), cpu, mem)?;
    let result = v.wrapping_sub(1);
    cpu.eflags.update_dec(result, v);
    finish_store(ins, 0, cpu, mem, result, next)
}

fn exec_neg(ins: &DecodedInstruction, cpu: &mut CpuState, mem: &mut Memory, next: u32) -> (r: Result<ExecutionResult, EmulatorError>)
    requires
        ins.mnemonic is Neg,
        next == next_address(ins@, *old(cpu)),
    ensures
        final(mem).same_shape(old(mem)),
        reports(r, outcome(ins@, *old(cpu), *old(mem)), *final(cpu), final(mem).bytes()),
{
    proof {
        reveal(outcome);
    }
    let v = read_operand(ins.operand(0), cpu, mem)?;
    let result = 0u32.wrapping_sub(v);
    cpu.eflags.update_arithmetic(result, 0, v, true);
    cpu.eflags.cf = v != 0;
    finish_store(ins, 0, cpu, mem, result, next)
}

fn exec_not(ins: &DecodedInstruction, cpu: &mut CpuState, mem: &mut Memory, next: u32) -> (r: Result<ExecutionResult, EmulatorError>)
    requires
        ins.mnemonic is Not,
        next == next_address(ins@, *old(cpu)),
    ensures
        final(mem).same_shape(old(mem)),
        reports(r, outcome(ins@, *old(cpu), *old(mem)), *final(cpu), final(mem).bytes()),
{
    proof {
        reveal(outcome);
    }
    let v = read_operand(ins.operand(0), cpu, mem)?;
    finish_store(ins, 0, cpu, mem, !v, next)
}

fn exec_mul(ins: &DecodedInstruction, cpu: &mut CpuState, mem: &mut Memory, next: u32) -> (r: Result<ExecutionResult, EmulatorError>)
    requires
        ins.mnemonic is Mul,
        next == next_address(ins@, *old(cpu)),
    ensures
        final(mem).same_shape(old(mem)),
        reports(r, outcome(ins@, *old(cpu), *old(mem)), *final(cpu), final(mem).bytes()),
{
    proof {
        reveal(outcome);
    }
    let v = read_operand(ins.operand(0), cpu, mem)?;
    let a = cpu.regs.eax as u64;
    let w = v as u64;
    assert(a * w <= 0xFFFF_FFFF * 0xFFFF_FFFF) by (nonlinear_arith)
        requires a <= 0xFFFF_FFFF, w <= 0xFFFF_FFFF;
    let p = a * w;
    let hi = (p >> 32u64) as u32;
    assert(p >> 32u64 == p / 0x1_0000_0000) by (bit_vector);
    cpu.regs.eax = (p % 0x1_0000_0000) as u32;
    cpu.regs.edx = hi;
    cpu.eflags.of = hi != 0;
    cpu.eflags.cf = hi != 0;
    Ok(ExecutionResult::Continue { next_eip: next })
}

/// IMUL with one (EDX:EAX = EAX * src), two or three operands.
fn exec_imul(ins: &DecodedInstruction, cpu: &mut CpuState, mem: &mut Memory, next: u32) -> (r: Result<ExecutionResult, EmulatorError>)
    requires
        ins.mnemonic is Imul,
        next == next_address(ins@, *old(cpu)),
    ensures
        final(mem).same_shape(old(mem)),
        reports(r, outcome(ins@, *old(cpu), *old(mem)), *final(cpu), final(mem).bytes()),
{
    proof {
        reveal(outcome);
    }
    let n = ins.operands.len();
    if n == 1 {
        let v = read_operand(ins.operand(0), cpu, mem)?;
        let (pu, fits) = signed_product(cpu.regs.eax, v);
        cpu.regs.eax = (pu % 0x1_0000_0000) as u32;
        cpu.regs.edx = (pu / 0x1_0000_0000) as u32;
        cpu.eflags.of = !fits;
        cpu.eflags.cf = !fits;
        Ok(ExecutionResult::Continue { next_eip: next })
    } else if n == 2 || n == 3 {
        let (x, y) = if n == 2 { (ins.operand(0), ins.operand(1)) } else { (ins.operand(1), ins.operand(2)) };
        let a = read_operand(x, cpu, mem)?;
        let b = read_operand(y, cpu, mem)?;
        let (pu, fits) = signed_product(a, b);
        write_operand(ins.operand(0), cpu, mem, (pu % 0x1_0000_0000) as u32)?;
        cpu.eflags.of = !fits;
        cpu.eflags.cf = !fits;
        Ok(ExecutionResult::Continue { next_eip: next })
    } else {
        Err(EmulatorError::InvalidOperand(cpu.eip))
    }
}

/// Magnitude and sign of the two's-complement reading of `a`.
fn magnitude(a: u32) -> (r: (u64, bool))
    ensures
        r.0 <= 0x8000_0000,
        signed(a) == if r.1 { -(r.0 as int) } else { r.0 as int },
        r.1 ==> r.0 > 0,
{
    if a >= 0x8000_0000 { ((0x1_0000_0000u64 - a as u64), true) } else { (a as u64, false) }
}

/// The signed product of `a` and `b` in 64-bit two's complement, and whether it fits in 32 bits.
fn signed_product(a: u32, b: u32) -> (r: (u64, bool))
    ensures
        r.0 as int == twos64(signed(a) * signed(b)),
        r.1 == fits_i32(signed(a) * signed(b)),
{
    let (ma, na) = magnitude(a);
    let (mb, nb) = magnitude(b);
    assert(ma * mb <= 0x8000_0000 * 0x8000_0000) by (nonlinear_arith)
        requires ma <= 0x8000_0000, mb <= 0x8000_0000;
    let m = ma * mb;
    let neg = na != nb && m != 0;
    proof {
        let sa = signed(a);
        let sb = signed(b);
        if na { if nb { assert(sa * sb == (ma as int) * (mb as int)) by (nonlinear_arith) requires sa == -(ma as int), sb == -(mb as int); }
                else { assert(sa * sb == -((ma as int) * (mb as int))) by (nonlinear_arith) requires sa == -(ma as int), sb == mb as int; } }
        else { if nb { assert(sa * sb == -((ma as int) * (mb as int))) by (nonlinear_arith) requires sa == ma as int, sb == -(mb as int); }
               else { assert(sa * sb == (ma as int) * (mb as int)) by (nonlinear_arith) requires sa == ma as int, sb == mb as int; } }
    }
    if neg {
        let pu = u64::MAX - m + 1;
        (pu, m <= 0x8000_0000)
    } else {
        (m, m < 0x8000_0000)
    }
}

/// SHL/SAL, SHR and SAR; a count of zero (after masking to 5 bits) changes nothing.
fn exec_shift(ins: &DecodedInstruction, cpu: &mut CpuState, mem: &mut Memory, next: u32) -> (r: Result<ExecutionResult, EmulatorError>)
    requires
        ins.mnemonic is Shl || ins.mnemonic is Sal || ins.mnemonic is Shr || ins.mnemonic is Sar,
        next == next_address(ins@, *old(cpu)),
    ensures
        final(mem).same_shape(old(mem)),
        reports(r, outcome(ins@, *old(cpu), *old(mem)), *final(cpu), final(mem).bytes()),
{
    proof {
        reveal(outcome);
    }
    let v = read_operand(ins.operand(0), cpu, mem)?;
    let c = read_operand(ins.operand(1), cpu, mem)?;
    let count = c & 0x1f;
    if count == 0 {
        return Ok(ExecutionResult::Continue { next_eip: next });
    }
    assert(count < 32) by (bit_vector) requires count == c & 0x1f;
    let m = ins.mnemonic;
    let result = match m {
        Mnemonic::Shr => v >> count,
        Mnemonic::Sar => ((v as i32) >> count) as u32,
        _ => v << count,
    };
    let cf = match m {
        Mnemonic::Shr => (v >> (count - 1)) & 1 != 0,
        Mnemonic::Sar => ((v as i32) >> (count - 1)) & 1 != 0,
        _ => (v >> (32 - count)) & 1 != 0,
    };
    let of = if count != 1 {
        false
    } else {
        match m {
            Mnemonic::Shr => v >> 31u32 != 0,
            Mnemonic::Sar => false,
            _ => (result >> 31u32 != 0) != cf,
        }
    };
    cpu.eflags.update_logical(result);
    cpu.eflags.cf = cf;
    cpu.eflags.of = of;
    finish_store(ins, 0, cpu, mem, result, next)
}

fn branch_of(op: Operand, cpu: &CpuState) -> (r: Result<u32, EmulatorError>)
    ensures
        r is Ok <==> branch_target(op) is Some,
        r matches Ok(t) ==> branch_target(op) == Some(t),
{
    match op {
        Operand::NearBranch(t) => Ok(t),
        _ => Err(EmulatorError::InvalidOperand(cpu.eip)),
    }
}

/// Whether conditional jump `m` is taken under flags `f`.
pub fn condition_holds(m: Mnemonic, f: &Eflags) -> (r: bool)
    ensures
        r == condition(m, *f),
{
    match m {
        Mnemonic::Je => f.zf,
        Mnemonic::Jne => !f.zf,
        Mnemonic::Jg => !f.zf && f.sf == f.of,
        Mnemonic::Jge => f.sf == f.of,
        Mnemonic::Jl => f.sf != f.of,
        Mnemonic::Jle => f.zf || f.sf != f.of,
        Mnemonic::Ja => !f.cf && !f.zf,
        Mnemonic::Jae => !f.cf,
        Mnemonic::Jb => f.cf,
        Mnemonic::Jbe => f.cf || f.zf,
        Mnemonic::Js => f.sf,
        Mnemonic::Jns => !f.sf,
        Mnemonic::Jo => f.of,
        _ => !f.of,
    }
}

/// JMP and the conditional jumps, decided on the flags before the jump.
fn exec_jump(ins: &DecodedInstruction, cpu: &mut CpuState, mem: &mut Memory, next: u32) -> (r: Result<ExecutionResult, EmulatorError>)
    requires
        ins.mnemonic is Jmp || is_jcc(ins.mnemonic),
        next == next_address(ins@, *old(cpu)),
    ensures
        final(mem).same_shape(old(mem)),
        reports(r, outcome(ins@, *old(cpu), *old(mem)), *final(cpu), final(mem).bytes()),
{
    proof {
        reveal(outcome);
    }
    if ins.mnemonic == Mnemonic::Jmp || condition_holds(ins.mnemonic, &cpu.eflags) {
        let t = branch_of(ins.operand(0), cpu)?;
        Ok(ExecutionResult::Continue { next_eip: t })
    } else {
        Ok(ExecutionResult::Continue { next_eip: next })
    }
}

/// CALL: pushes the return address, then jumps.
fn exec_call(ins: &DecodedInstruction, cpu: &mut CpuState, mem: &mut Memory, next: u32) -> (r: Result<ExecutionResult, EmulatorError>)
    requires
        ins.mnemonic is Call,
        next == next_address(ins@, *old(cpu)),
    ensures
        final(mem).same_shape(old(mem)),
        reports(r, outcome(ins@, *old(cpu), *old(mem)), *final(cpu), final(mem).bytes()),
{
    proof {
        reveal(outcome);
    }
    push_u32(cpu, mem, next)?;
    let t = branch_of(ins.operand(0), cpu)?;
    Ok(ExecutionResult::Continue { next_eip: t })
}

/// RET, and RET n which also releases n bytes of arguments.
fn exec_ret(ins: &DecodedInstruction, cpu: &mut CpuState, mem: &mut Memory, next: u32) -> (r: Result<ExecutionResult, EmulatorError>)
    requires
        ins.mnemonic is Ret,
        next == next_address(ins@, *old(cpu)),
    ensures
        final(mem).same_shape(old(mem)),
        reports(r, outcome(ins@, *old(cpu), *old(mem)), *final(cpu), final(mem).bytes()),
{
    proof {
        reveal(outcome);
    }
    let ra = pop_u32(cpu, mem)?;
    if let Operand::Imm(n) = ins.operand(0) {
        cpu.regs.esp = cpu.regs.esp.wrapping_add(n);
    }
    Ok(ExecutionResult::Continue { next_eip: ra })
}

/// INT n: vector 3 is a breakpoint, others are reported to the caller.
fn exec_int(ins: &DecodedInstruction, cpu: &mut CpuState, mem: &mut Memory, next: u32) -> (r: Result<ExecutionResult, EmulatorError>)
    requires
        ins.mnemonic is Int,
        next == next_address(ins@, *old(cpu)),
    ensures
        final(mem).same_shape(old(mem)),
        reports(r, outcome(ins@, *old(cpu), *old(mem)), *final(cpu), final(mem).bytes()),
{
    proof {
        reveal(outcome);
    }
    match ins.operand(0) {
        Operand::Imm(v) => {
            let vector = (v & 0xff) as u8;
            if v & 0xff == 3 {
                Ok(ExecutionResult::Breakpoint)
            } else {
                Ok(ExecutionResult::Interrupt(vector))
            }
        },
        _ => Err(EmulatorError::InvalidOperand(cpu.eip)),
    }
}

/// Executes one decoded instruction located at `cpu.eip`.
pub fn execute(ins: &DecodedInstruction, cpu: &mut CpuState, mem: &mut Memory) -> (r: Result<ExecutionResult, EmulatorError>)
    ensures
        final(mem).same_shape(old(mem)),
        reports(r, outcome(ins@, *old(cpu), *old(mem)), *final(cpu), final(mem).bytes()),
        ins.mnemonic is Other ==> r == Err::<ExecutionResult, EmulatorError>(EmulatorError::UnsupportedInstruction(old(cpu).eip))
            && *final(cpu) == *old(cpu) && *final(mem) == *old(mem),
{
    proof {
        reveal(outcome);
    }
    let next = cpu.eip.wrapping_add(ins.length);
    match ins.mnemonic {
        Mnemonic::Mov => exec_mov(ins, cpu, mem, next),
        Mnemonic::Push => exec_push(ins, cpu, mem, next),
        Mnemonic::Pop => exec_pop(ins, cpu, mem, next),
        Mnemonic::Xchg => exec_xchg(ins, cpu, mem, next),
        Mnemonic::Lea => exec_lea(ins, cpu, mem, next),
        Mnemonic::Add | Mnemonic::Sub => exec_add_sub(ins, cpu, mem, next),
        Mnemonic::And | Mnemonic::Or | Mnemonic::Xor => exec_logic(ins, cpu, mem, next),
        Mnemonic::Cmp | Mnemonic::Test => exec_compare(ins, cpu, mem, next),
        Mnemonic::Inc => exec_inc(ins, cpu, mem, next),
        Mnemonic::Dec => exec_dec(ins, cpu, mem, next),
        Mnemonic::Neg => exec_neg(ins, cpu, mem, next),
        Mnemonic::Not => exec_not(ins, cpu, mem, next),
        Mnemonic::Mul => exec_mul(ins, cpu, mem, next),
        Mnemonic::Imul => exec_imul(ins, cpu, mem, next),
        Mnemonic::Shl | Mnemonic::Sal | Mnemonic::Shr | Mnemonic::Sar => exec_shift(ins, cpu, mem, next),
        Mnemonic::Call => exec_call(ins, cpu, mem, next),
        Mnemonic::Ret => exec_ret(ins, cpu, mem, next),
        Mnemonic::Nop => Ok(ExecutionResult::Continue { next_eip: next }),
        Mnemonic::Hlt => {
            cpu.halted = true;
            Ok(ExecutionResult::Halt)
        },
        Mnemonic::Int => exec_int(ins, cpu, mem, next),
        Mnemonic::Int3 => Ok(ExecutionResult::Breakpoint),
        Mnemonic::Other => Err(EmulatorError::UnsupportedInstruction(cpu.eip)),
        _ => exec_jump(ins, cpu, mem, next),
    }
}


/// Fetches, decodes and executes 32-bit instructions.
#[derive(Debug, Clone, Copy)]
pub struct Executor {
    bitness: u32,
    disassembler: Disassembler,
}

impl Default for Executor {
    fn default() -> (r: Self)
        ensures
            r.wf(),
    {
        Executor::new()
    }
}

impl Executor {
    /// The executor and its disassembler decode 32-bit code.
    pub closed spec fn wf(&self) -> bool {
        self.bitness == 32 && self.disassembler.mode() == 32
    }

    /// An executor for 32-bit code.
    pub fn new() -> (r: Self)
        ensures
            r.wf(),
    {
        Executor { bitness: 32, disassembler: Disassembler::new() }
    }

    /// Decodes the instruction at `cpu.eip` from the 15 bytes there, with its text.
    pub fn fetch(&self, cpu: &CpuState, memory: &Memory) -> (r: Result<(DecodedInstruction, String), EmulatorError>)
        requires
            self.wf(),
        ensures
            r is Ok <==> decoded_at(*cpu, *memory) is Some,
            r matches Ok((ins, _)) ==> decoded_at(*cpu, *memory) == Some(ins@),
            r matches Err(e) ==> if memory.access_ok(cpu.eip, 15, false) {
                e == EmulatorError::UnsupportedInstruction(cpu.eip)
            } else {
                e matches EmulatorError::Memory(me) && memory.error_matches(me, cpu.eip, 15, false)
            },
    {
        let bytes = match memory.read_bytes(cpu.eip, 15) {
            Ok(b) => b,
            Err(e) => return Err(EmulatorError::Memory(e)),
        };
        match decode_in_mode(bytes.as_slice(), cpu.eip, self.bitness) {
            Some((ins, text)) => Ok((ins, text)),
            None => Err(EmulatorError::UnsupportedInstruction(cpu.eip)),
        }
    }

    /// Fetches, decodes and executes the instruction at `cpu.eip`.
    pub fn execute_one(&self, cpu: &mut CpuState, memory: &mut Memory) -> (r: Result<ExecutionResult, EmulatorError>)
        requires
            self.wf(),
        ensures
            final(memory).same_shape(old(memory)),
            match decoded_at(*old(cpu), *old(memory)) {
                None => r is Err && *final(cpu) == *old(cpu) && final(memory).bytes() == old(memory).bytes(),
                Some(ins) => reports(r, outcome(ins, *old(cpu), *old(memory)), *final(cpu), final(memory).bytes()),
            },
    {
        let (ins, _text) = self.fetch(cpu, memory)?;
        execute(&ins, cpu, memory)
    }

    /// Up to `count` instructions disassembled from `address`; empty when the
    /// `15 * count` bytes there cannot be read.
    pub fn disassemble(&self, memory: &Memory, address: u32, count: usize) -> (r: Vec<DisassemblyLine>)
        requires
            self.wf(),
        ensures
            r@.len() <= count,
            count <= usize::MAX / 15 && memory.access_ok(address, (count * 15) as nat, false) && address + count * 15 <= u32::MAX
                ==> is_listing(r@, memory.bytes().subrange(address as int, address + count * 15), address, count, 32),
            !(count <= usize::MAX / 15 && memory.access_ok(address, (count * 15) as nat, false)) ==> r@.len() == 0,
    {
        if count > usize::MAX / 15 {
            return Vec::new();
        }
        match memory.read_bytes(address, count * 15) {
            Ok(bytes) => {
                if bytes.len() > (u32::MAX - address) as usize {
                    return Vec::new();
                }
                self.disassembler.disassemble(bytes.as_slice(), address, count)
            },
            Err(_) => Vec::new(),
        }
    }
}

} // verus!
