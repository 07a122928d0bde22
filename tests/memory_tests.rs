use revgame_core::{Memory, MemoryError, MemoryRegion, Permissions};

#[test]
fn test_read_write_u8() {
    let mut mem = Memory::new(0x1000);
    mem.write_u8(0x100, 0xAB).unwrap();
    assert_eq!(mem.read_u8(0x100).unwrap(), 0xAB);
}

#[test]
fn test_read_write_u32() {
    let mut mem = Memory::new(0x1000);
    mem.write_u32(0x100, 0xDEADBEEF).unwrap();
    assert_eq!(mem.read_u32(0x100).unwrap(), 0xDEADBEEF);
    assert_eq!(mem.read_u8(0x100).unwrap(), 0xEF);
    assert_eq!(mem.read_u8(0x101).unwrap(), 0xBE);
    assert_eq!(mem.read_u8(0x102).unwrap(), 0xAD);
    assert_eq!(mem.read_u8(0x103).unwrap(), 0xDE);
}

#[test]
fn test_out_of_bounds() {
    let mem = Memory::new(0x100);
    assert!(mem.read_u8(0x100).is_err());
    assert!(mem.read_u32(0xFE).is_err());
}

#[test]
fn test_load() {
    let mut mem = Memory::new(0x1000);
    let data = [0x90, 0x90, 0xCC, 0xC3];
    mem.load(0x1000 - 4, &data).unwrap();
    assert_eq!(mem.read_u8(0xFFC).unwrap(), 0x90);
    assert_eq!(mem.read_u8(0xFFD).unwrap(), 0x90);
    assert_eq!(mem.read_u8(0xFFE).unwrap(), 0xCC);
    assert_eq!(mem.read_u8(0xFFF).unwrap(), 0xC3);
}

#[test]
fn write_bytes_then_read_bytes_round_trips() {
    let mut mem = Memory::new(0x100);
    mem.write_bytes(0xF0, &[1, 2, 3, 4, 5, 6, 7, 8, 9, 10, 11, 12, 13, 14, 15, 16]).unwrap();
    assert_eq!(mem.read_bytes(0xF0, 16).unwrap(), vec![1, 2, 3, 4, 5, 6, 7, 8, 9, 10, 11, 12, 13, 14, 15, 16]);
    mem.write_u16(0x10, 0xBEEF).unwrap();
    assert_eq!(mem.read_u16(0x10).unwrap(), 0xBEEF);
    assert_eq!(mem.read_u8(0x10).unwrap(), 0xEF);
}

#[test]
fn out_of_bounds_write_reports_and_leaves_memory() {
    let mut mem = Memory::new(0x10);
    mem.write_bytes(0x0C, &[9, 9, 9, 9]).unwrap();
    let err = mem.write_bytes(0x0E, &[1, 2, 3]).unwrap_err();
    assert_eq!(err, MemoryError::OutOfBounds { address: 0x0E, size: 0x10 });
    assert_eq!(mem.read_bytes(0x0C, 4).unwrap(), vec![9, 9, 9, 9]);
    assert!(mem.write_u32(0x0D, 1).is_err());
    assert!(mem.read_bytes(0x10, 1).is_err());
    assert_eq!(mem.slice(0x0F, 2), None);
    assert_eq!(mem.slice(0x0E, 2), Some(&[9u8, 9][..]));
}

#[test]
fn permissions_are_checked_against_first_region() {
    let mut mem = Memory::with_puzzle_layout(0x1000, 0x2000, 0x4000);
    assert_eq!(mem.size(), 0x5000);
    assert!(mem.write_u8(0x1000, 1).is_ok());
    mem.set_enforce_permissions(true);
    match mem.write_u8(0x1000, 1) {
        Err(MemoryError::AccessViolation { address, region, write }) => {
            assert_eq!(address, 0x1000);
            assert_eq!(region, "code");
            assert!(write);
        }
        other => panic!("unexpected {:?}", other),
    }
    assert!(mem.read_u8(0x1000).is_ok());
    assert!(mem.write_u8(0x2000, 7).is_ok());
    mem.load(0x1000, &[0x90]).unwrap();
    assert_eq!(mem.read_u8(0x1000).unwrap(), 0x90);
    mem.add_region(MemoryRegion { name: "late".to_string(), start: 0x2000, end: 0x2100, permissions: Permissions::ro() });
    assert_eq!(mem.get_region(0x2050).unwrap().name, "data");
    assert!(mem.read_u8(0x4800).is_ok());
    assert!(mem.get_region(0x6000).is_none());
}

#[test]
fn region_helpers() {
    let r = MemoryRegion { name: "x".to_string(), start: 0x10, end: 0x20, permissions: Permissions::rwx() };
    assert!(r.contains(0x10));
    assert!(!r.contains(0x20));
    assert_eq!(r.size(), 0x10);
    assert!(Permissions::rw().write && !Permissions::rw().execute);
    assert!(Permissions::rx().execute && !Permissions::rx().write);
    let mem = Memory::new(4);
    assert_eq!(mem.raw(), &[0, 0, 0, 0]);
}
