//! Registers and the complete CPU state.
use vstd::prelude::*;
use crate::flags::{Eflags, cleared_flags};
use crate::text::{eq_ignore_case, same_ignoring_case};

verus! {

/// A 32-bit general-purpose register, or the instruction pointer.
#[derive(Debug, Clone, Copy, PartialEq, Eq, Hash, Structural)]
pub enum Register {
    Eax,
    Ebx,
    Ecx,
    Edx,
    Esi,
    Edi,
    Ebp,
    Esp,
    Eip,
}

/// The register whose name is `s`, ignoring ASCII case.
pub open spec fn register_named(s: Seq<char>) -> Option<Register> {
    if same_ignoring_case(s, "eax"@) {
        Some(Register::Eax)
    } else if same_ignoring_case(s, "ebx"@) {
        Some(Register::Ebx)
    } else if same_ignoring_case(s, "ecx"@) {
        Some(Register::Ecx)
    } else if same_ignoring_case(s, "edx"@) {
        Some(Register::Edx)
    } else if same_ignoring_case(s, "esi"@) {
        Some(Register::Esi)
    } else if same_ignoring_case(s, "edi"@) {
        Some(Register::Edi)
    } else if same_ignoring_case(s, "ebp"@) {
        Some(Register::Ebp)
    } else if same_ignoring_case(s, "esp"@) {
        Some(Register::Esp)
    } else if same_ignoring_case(s, "eip"@) {
        Some(Register::Eip)
    } else {
        None
    }
}

/// Upper-case display name of a register.
pub open spec fn register_name(r: Register) -> Seq<char> {
    match r {
        Register::Eax => "EAX"@,
        Register::Ebx => "EBX"@,
        Register::Ecx => "ECX"@,
        Register::Edx => "EDX"@,
        Register::Esi => "ESI"@,
        Register::Edi => "EDI"@,
        Register::Ebp => "EBP"@,
        Register::Esp => "ESP"@,
        Register::Eip => "EIP"@,
    }
}

impl Register {
    /// Parses a register name, ignoring ASCII case.
    pub fn from_name(name: &str) -> (r: Option<Self>)
        ensures
            r == register_named(name@),
    {
        if eq_ignore_case(name, "eax") {
            Some(Register::Eax)
        } else if eq_ignore_case(name, "ebx") {
            Some(Register::Ebx)
        } else if eq_ignore_case(name, "ecx") {
            Some(Register::Ecx)
        } else if eq_ignore_case(name, "edx") {
            Some(Register::Edx)
        } else if eq_ignore_case(name, "esi") {
            Some(Register::Esi)
        } else if eq_ignore_case(name, "edi") {
            Some(Register::Edi)
        } else if eq_ignore_case(name, "ebp") {
            Some(Register::Ebp)
        } else if eq_ignore_case(name, "esp") {
            Some(Register::Esp)
        } else if eq_ignore_case(name, "eip") {
            Some(Register::Eip)
        } else {
            None
        }
    }

    pub fn name(&self) -> (r: &'static str)
        ensures
            r@ == register_name(*self),
    {
        match self {
            Register::Eax => "EAX",
            Register::Ebx => "EBX",
            Register::Ecx => "ECX",
            Register::Edx => "EDX",
            Register::Esi => "ESI",
            Register::Edi => "EDI",
            Register::Ebp => "EBP",
            Register::Esp => "ESP",
            Register::Eip => "EIP",
        }
    }
}

/// The eight general-purpose registers.
#[derive(Debug, Clone, Copy, Default, PartialEq, Eq, Structural)]
pub struct Registers {
    pub eax: u32,
    pub ebx: u32,
    pub ecx: u32,
    pub edx: u32,
    pub esi: u32,
    pub edi: u32,
    pub ebp: u32,
    pub esp: u32,
}

/// A fault the CPU can record.
#[derive(Debug, Clone, PartialEq, Eq)]
pub enum CpuFault {
    InvalidOpcode(u32),
    MemoryFault { address: u32, write: bool },
    DivideError,
    StackFault,
    GeneralProtection(String),
}

/// Registers, instruction pointer, flags, halted flag and an optional fault.
#[derive(Debug, Clone)]
pub struct CpuState {
    pub regs: Registers,
    pub eip: u32,
    pub eflags: Eflags,
    pub halted: bool,
    pub fault: Option<CpuFault>,
}

impl Default for CpuState {
    fn default() -> (r: Self)
        ensures
            r.regs == (Registers { eax: 0, ebx: 0, ecx: 0, edx: 0, esi: 0, edi: 0, ebp: 0, esp: 0 }),
            r.eip == 0,
            r.eflags == cleared_flags(),
            !r.halted,
            r.fault is None,
    {
        CpuState {
            regs: Registers { eax: 0, ebx: 0, ecx: 0, edx: 0, esi: 0, edi: 0, ebp: 0, esp: 0 },
            eip: 0,
            eflags: Eflags::new(),
            halted: false,
            fault: None,
        }
    }
}

impl CpuState {
    /// Value of register `r`.
    pub open spec fn reg(&self, r: Register) -> u32 {
        match r {
            Register::Eax => self.regs.eax,
            Register::Ebx => self.regs.ebx,
            Register::Ecx => self.regs.ecx,
            Register::Edx => self.regs.edx,
            Register::Esi => self.regs.esi,
            Register::Edi => self.regs.edi,
            Register::Ebp => self.regs.ebp,
            Register::Esp => self.regs.esp,
            Register::Eip => self.eip,
        }
    }

    /// This state with register `r` set to `v`.
    pub open spec fn with_reg(self, r: Register, v: u32) -> CpuState {
        match r {
            Register::Eax => CpuState { regs: Registers { eax: v, ..self.regs }, ..self },
            Register::Ebx => CpuState { regs: Registers { ebx: v, ..self.regs }, ..self },
            Register::Ecx => CpuState { regs: Registers { ecx: v, ..self.regs }, ..self },
            Register::Edx => CpuState { regs: Registers { edx: v, ..self.regs }, ..self },
            Register::Esi => CpuState { regs: Registers { esi: v, ..self.regs }, ..self },
            Register::Edi => CpuState { regs: Registers { edi: v, ..self.regs }, ..self },
            Register::Ebp => CpuState { regs: Registers { ebp: v, ..self.regs }, ..self },
            Register::Esp => CpuState { regs: Registers { esp: v, ..self.regs }, ..self },
            Register::Eip => CpuState { eip: v, ..self },
        }
    }

    /// Registers, pointer, flags and halted flag agree (the fault record is not compared).
    pub open spec fn same_registers(&self, other: &CpuState) -> bool {
        &&& self.regs == other.regs
        &&& self.eip == other.eip
        &&& self.eflags == other.eflags
        &&& self.halted == other.halted
    }

    /// A copy of the registers, pointer, flags and halted flag; the fault record is
    /// copied too, without a claim on its text.
    pub fn snapshot(&self) -> (r: CpuState)
        ensures
            r.same_registers(self),
    {
        CpuState { regs: self.regs, eip: self.eip, eflags: self.eflags, halted: self.halted, fault: self.fault.clone() }
    }

    /// A cleared state with the given entry point and stack pointer.
    pub fn new(entry_point: u32, stack_pointer: u32) -> (r: Self)
        ensures
            r.regs == (Registers { eax: 0, ebx: 0, ecx: 0, edx: 0, esi: 0, edi: 0, ebp: 0, esp: stack_pointer }),
            r.eip == entry_point,
            r.eflags == cleared_flags(),
            !r.halted,
            r.fault is None,
    {
        let mut state = Self::default();
        state.eip = entry_point;
        state.regs.esp = stack_pointer;
        state
    }

    pub fn get_register(&self, reg: Register) -> (r: u32)
        ensures
            r == self.reg(reg),
    {
        match reg {
            Register::Eax => self.regs.eax,
            Register::Ebx => self.regs.ebx,
            Register::Ecx => self.regs.ecx,
            Register::Edx => self.regs.edx,
            Register::Esi => self.regs.esi,
            Register::Edi => self.regs.edi,
            Register::Ebp => self.regs.ebp,
            Register::Esp => self.regs.esp,
            Register::Eip => self.eip,
        }
    }

    pub fn set_register(&mut self, reg: Register, value: u32)
        ensures
            *final(self) == old(self).with_reg(reg, value),
    {
        match reg {
            Register::Eax => self.regs.eax = value,
            Register::Ebx => self.regs.ebx = value,
            Register::Ecx => self.regs.ecx = value,
            Register::Edx => self.regs.edx = value,
            Register::Esi => self.regs.esi = value,
            Register::Edi => self.regs.edi = value,
            Register::Ebp => self.regs.ebp = value,
            Register::Esp => self.regs.esp = value,
            Register::Eip => self.eip = value,
        }
    }

    pub fn get_register_by_name(&self, name: &str) -> (r: Option<u32>)
        ensures
            r == (match register_named(name@) {
                Some(reg) => Some(self.reg(reg)),
                None => None::<u32>,
            }),
    {
        match Register::from_name(name) {
            Some(reg) => Some(self.get_register(reg)),
            None => None,
        }
    }

    pub fn set_register_by_name(&mut self, name: &str, value: u32) -> (r: bool)
        ensures
            r == register_named(name@) is Some,
            *final(self) == (match register_named(name@) {
                Some(reg) => old(self).with_reg(reg, value),
                None => *old(self),
            }),
    {
        match Register::from_name(name) {
            Some(reg) => {
                self.set_register(reg, value);
                true
            },
            None => false,
        }
    }
}

} // verus!
