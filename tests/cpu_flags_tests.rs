use revgame_core::flags::compute_parity;
use revgame_core::{CpuState, Eflags, Register};

#[test]
fn test_register_from_name() {
    assert_eq!(Register::from_name("eax"), Some(Register::Eax));
    assert_eq!(Register::from_name("EAX"), Some(Register::Eax));
    assert_eq!(Register::from_name("Eax"), Some(Register::Eax));
    assert_eq!(Register::from_name("invalid"), None);
}

#[test]
fn test_cpu_state_registers() {
    let mut cpu = CpuState::new(0x1000, 0x3000);
    assert_eq!(cpu.get_register(Register::Eip), 0x1000);
    assert_eq!(cpu.get_register(Register::Esp), 0x3000);
    cpu.set_register(Register::Eax, 0xDEADBEEF);
    assert_eq!(cpu.get_register(Register::Eax), 0xDEADBEEF);
    assert!(cpu.set_register_by_name("ebx", 0x12345678));
    assert_eq!(cpu.get_register_by_name("ebx"), Some(0x12345678));
}

#[test]
fn register_names_round_trip() {
    assert_eq!(Register::Esp.name(), "ESP");
    assert_eq!(Register::from_name("eIp"), Some(Register::Eip));
    let mut cpu = CpuState::default();
    assert!(!cpu.set_register_by_name("xyz", 1));
    assert_eq!(cpu.get_register_by_name("xyz"), None);
}

#[test]
fn test_parity() {
    assert!(compute_parity(0b00000000));
    assert!(!compute_parity(0b00000001));
    assert!(compute_parity(0b00000011));
    assert!(!compute_parity(0b00000111));
}

#[test]
fn test_arithmetic_flags() {
    let mut flags = Eflags::new();
    flags.update_arithmetic(0, 5, 5, true);
    assert!(flags.zf);
    flags.update_arithmetic(0xFFFFFFFF, 0, 1, true);
    assert!(flags.sf);
    flags.update_arithmetic(0xFFFFFFFF, 0, 1, true);
    assert!(flags.cf);
}

#[test]
fn test_logical_flags() {
    let mut flags = Eflags::new();
    flags.update_logical(0);
    assert!(flags.zf);
    assert!(!flags.cf);
    assert!(!flags.of);
    flags.update_logical(0x80000000);
    assert!(flags.sf);
}

#[test]
fn inc_at_signed_max_sets_overflow_and_keeps_carry() {
    let mut flags = Eflags::new();
    flags.cf = true;
    flags.update_inc(0x80000000, 0x7FFFFFFF);
    assert!(flags.of);
    assert!(flags.cf);
    assert!(flags.sf);
    flags.cf = false;
    flags.update_inc(0x80000000, 0x7FFFFFFF);
    assert!(!flags.cf);
    flags.update_dec(0x7FFFFFFF, 0x80000000);
    assert!(flags.of);
    assert!(!flags.sf);
}

#[test]
fn logical_ops_always_clear_carry_and_overflow() {
    let mut flags = Eflags::new();
    flags.cf = true;
    flags.of = true;
    flags.af = true;
    flags.update_logical(0x1234);
    assert!(!flags.cf && !flags.of && !flags.af && !flags.zf);
    flags.update_arithmetic(0x80000000, 0x7FFFFFFF, 1, false);
    assert!(flags.of && !flags.cf && flags.af);
}

#[test]
fn flags_display_and_bits() {
    let mut flags = Eflags::new();
    assert_eq!(flags.display(), "[ ]");
    assert_eq!(flags.as_u32(), 0);
    flags.cf = true;
    flags.zf = true;
    flags.of = true;
    assert_eq!(flags.display(), "[ CF ZF OF ]");
    assert_eq!(flags.as_u32(), 0x841);
}
