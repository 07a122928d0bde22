//! Byte-addressable memory with optional named permission regions.
use vstd::prelude::*;

verus! {

/// Why a checked memory access failed.
#[derive(Debug, Clone, PartialEq, Eq)]
pub enum MemoryError {
    /// `address + count` runs past the end of the buffer of `size` bytes.
    OutOfBounds { address: u32, size: usize },
    /// The first region containing `address` lacks the needed permission.
    AccessViolation { address: u32, region: String, write: bool },
    /// Reserved for alignment-checked accesses.
    UnalignedAccess { address: u32, alignment: u32 },
}

/// Read / write / execute permission bits of a region.
#[derive(Debug, Clone, Copy, PartialEq, Eq, Structural)]
pub struct Permissions {
    pub read: bool,
    pub write: bool,
    pub execute: bool,
}

impl Permissions {
    pub fn rwx() -> (r: Self)
        ensures
            r.read && r.write && r.execute,
    {
        Permissions { read: true, write: true, execute: true }
    }

    pub fn rw() -> (r: Self)
        ensures
            r.read && r.write && !r.execute,
    {
        Permissions { read: true, write: true, execute: false }
    }

    pub fn rx() -> (r: Self)
        ensures
            r.read && !r.write && r.execute,
    {
        Permissions { read: true, write: false, execute: true }
    }

    pub fn ro() -> (r: Self)
        ensures
            r.read && !r.write && !r.execute,
    {
        Permissions { read: true, write: false, execute: false }
    }
}

/// A named address range `[start, end)` carrying permissions.
#[derive(Debug, Clone)]
pub struct MemoryRegion {
    pub name: String,
    pub start: u32,
    pub end: u32,
    pub permissions: Permissions,
}

impl MemoryRegion {
    pub open spec fn holds(&self, address: u32) -> bool {
        self.start <= address && address < self.end
    }

    pub fn contains(&self, address: u32) -> (r: bool)
        ensures
            r == self.holds(address),
    {
        address >= self.start && address < self.end
    }

    pub fn size(&self) -> (r: u32)
        requires
            self.start <= self.end,
        ensures
            r == self.end - self.start,
    {
        self.end - self.start
    }
}

/// Region `i` of `rs` is the first one that contains `address`.
pub open spec fn is_first_region(rs: Seq<MemoryRegion>, address: u32, i: int) -> bool {
    &&& 0 <= i < rs.len()
    &&& rs[i].holds(address)
    &&& forall|j: int| 0 <= j < i ==> !(#[trigger] rs[j]).holds(address)
}

/// No region of `rs` contains `address`.
pub open spec fn no_region(rs: Seq<MemoryRegion>, address: u32) -> bool {
    forall|j: int| 0 <= j < rs.len() ==> !(#[trigger] rs[j]).holds(address)
}

/// Flat little-endian memory of fixed size.
#[derive(Debug, Clone)]
pub struct Memory {
    data: Vec<u8>,
    regions: Vec<MemoryRegion>,
    enforce_permissions: bool,
}

impl Memory {
    /// The bytes of memory.
    pub closed spec fn bytes(&self) -> Seq<u8> {
        self.data@
    }

    /// The regions, in the order they were added.
    pub closed spec fn region_seq(&self) -> Seq<MemoryRegion> {
        self.regions@
    }

    /// Whether permission checks are applied.
    pub closed spec fn enforcing(&self) -> bool {
        self.enforce_permissions
    }

    pub open spec fn len_spec(&self) -> nat {
        self.bytes().len()
    }

    /// An access of `n` bytes at `address` stays inside the buffer.
    pub open spec fn in_bounds(&self, address: u32, n: nat) -> bool {
        address + n <= self.len_spec()
    }

    /// The permission check that a read (or write) at `address` passes.
    pub open spec fn allows(&self, address: u32, write: bool) -> bool {
        !self.enforcing() || forall|i: int|
            #![trigger self.region_seq()[i]]
            is_first_region(self.region_seq(), address, i) ==> if write {
                self.region_seq()[i].permissions.write
            } else {
                self.region_seq()[i].permissions.read
            }
    }

    /// A checked access of `n` bytes at `address` succeeds.
    pub open spec fn access_ok(&self, address: u32, n: nat, write: bool) -> bool {
        self.in_bounds(address, n) && self.allows(address, write)
    }

    /// `e` is the error that a checked access of `n` bytes at `address` reports:
    /// bounds are checked first, then permissions.
    pub open spec fn error_matches(&self, e: MemoryError, address: u32, n: nat, write: bool) -> bool {
        if !self.in_bounds(address, n) {
            e == (MemoryError::OutOfBounds { address, size: self.len_spec() as usize })
        } else if !self.allows(address, write) {
            e matches MemoryError::AccessViolation { address: a, region, write: w } && a == address && w == write
                && exists|i: int| is_first_region(self.region_seq(), address, i) && region@ == self.region_seq()[i].name@
        } else {
            false
        }
    }

    /// Same layout and settings, possibly other bytes.
    pub open spec fn same_shape(&self, other: &Memory) -> bool {
        &&& self.len_spec() == other.len_spec()
        &&& self.region_seq() == other.region_seq()
        &&& self.enforcing() == other.enforcing()
    }

    pub fn new(size: usize) -> (m: Self)
        ensures
            m.bytes() == Seq::new(size as nat, |i: int| 0u8),
            m.region_seq().len() == 0,
            !m.enforcing(),
    {
        let data = vec![0u8; size];
        proof {
            assert(data@ =~= Seq::new(size as nat, |i: int| 0u8));
        }
        Memory { data, regions: Vec::new(), enforce_permissions: false }
    }

    /// Memory of `stack_start + 0x1000` bytes with code, data and stack regions.
    pub fn with_puzzle_layout(code_start: u32, data_start: u32, stack_start: u32) -> (m: Self)
        requires
            0x1000 <= stack_start,
            stack_start + 0x1000 <= u32::MAX,
        ensures
            m.bytes() == Seq::new((stack_start + 0x1000) as nat, |i: int| 0u8),
            !m.enforcing(),
            m.region_seq().len() == 3,
            m.region_seq()[0].name@ == "code"@ && m.region_seq()[1].name@ == "data"@ && m.region_seq()[2].name@ == "stack"@,
            m.region_seq()[0].start == code_start && m.region_seq()[0].end == data_start,
            m.region_seq()[0].permissions == (Permissions { read: true, write: false, execute: true }),
            m.region_seq()[1].start == data_start && m.region_seq()[1].end == stack_start - 0x1000,
            m.region_seq()[1].permissions == (Permissions { read: true, write: true, execute: false }),
            m.region_seq()[2].start == stack_start - 0x1000 && m.region_seq()[2].end == stack_start + 0x1000,
            m.region_seq()[2].permissions == (Permissions { read: true, write: true, execute: false }),
    {
        let size = (stack_start + 0x1000) as usize;
        let mut mem = Self::new(size);
        mem.regions.push(MemoryRegion {
            name: "code".to_owned(),
            start: code_start,
            end: data_start,
            permissions: Permissions::rx(),
        });
        mem.regions.push(MemoryRegion {
            name: "data".to_owned(),
            start: data_start,
            end: stack_start - 0x1000,
            permissions: Permissions::rw(),
        });
        mem.regions.push(MemoryRegion {
            name: "stack".to_owned(),
            start: stack_start - 0x1000,
            end: stack_start + 0x1000,
            permissions: Permissions::rw(),
        });
        mem
    }

    pub fn size(&self) -> (r: usize)
        ensures
            r == self.len_spec(),
    {
        self.data.len()
    }

    pub fn set_enforce_permissions(&mut self, enforce: bool)
        ensures
            final(self).enforcing() == enforce,
            final(self).bytes() == old(self).bytes(),
            final(self).region_seq() == old(self).region_seq(),
    {
        self.enforce_permissions = enforce;
    }

    pub fn add_region(&mut self, region: MemoryRegion)
        ensures
            final(self).region_seq() == old(self).region_seq().push(region),
            final(self).bytes() == old(self).bytes(),
            final(self).enforcing() == old(self).enforcing(),
    {
        self.regions.push(region);
    }

    /// The first region, in insertion order, that contains `address`.
    pub fn get_region(&self, address: u32) -> (r: Option<&MemoryRegion>)
        ensures
            r matches Some(reg) ==> exists|i: int|
                is_first_region(self.region_seq(), address, i) && self.region_seq()[i] == *reg,
            r is None <==> no_region(self.region_seq(), address),
    {
        let mut i: usize = 0;
        while i < self.regions.len()
            invariant
                i <= self.regions@.len(),
                forall|j: int| 0 <= j < i ==> !(#[trigger] self.regions@[j]).holds(address),
            decreases self.regions@.len() - i,
        {
            if self.regions[i].contains(address) {
                assert(is_first_region(self.region_seq(), address, i as int));
                return Some(&self.regions[i]);
            }
            i += 1;
        }
        None
    }

    fn check_bounds(&self, address: u32, n: usize) -> (r: Result<(), MemoryError>)
        ensures
            r is Ok <==> self.in_bounds(address, n as nat),
            r matches Err(e) ==> e == (MemoryError::OutOfBounds { address, size: self.len_spec() as usize }),
    {
        let len = self.data.len();
        if n > len || address as usize > len - n {
            Err(MemoryError::OutOfBounds { address, size: len })
        } else {
            Ok(())
        }
    }

    fn check_access(&self, address: u32, write: bool) -> (r: Result<(), MemoryError>)
        ensures
            r is Ok <==> self.allows(address, write),
            r matches Err(e) ==> (e matches MemoryError::AccessViolation { address: a, region, write: w } && a == address && w == write
                && exists|i: int| is_first_region(self.region_seq(), address, i) && region@ == self.region_seq()[i].name@),
    {
        if !self.enforce_permissions {
            return Ok(());
        }
        match self.get_region(address) {
            Some(region) => {
                let permitted = if write { region.permissions.write } else { region.permissions.read };
                if permitted {
                    proof {
                        let k = choose|k: int| is_first_region(self.region_seq(), address, k) && self.region_seq()[k] == *region;
                        assert forall|i: int| #![trigger self.region_seq()[i]] is_first_region(self.region_seq(), address, i) implies
                            (if write { self.region_seq()[i].permissions.write } else { self.region_seq()[i].permissions.read }) by {
                            if i < k { assert(!self.region_seq()[i].holds(address)); }
                            if k < i { assert(!self.region_seq()[k].holds(address)); }
                        }
                    }
                    Ok(())
                } else {
                    Err(MemoryError::AccessViolation { address, region: region.name.clone(), write })
                }
            },
            None => Ok(()),
        }
    }

    fn check(&self, address: u32, n: usize, write: bool) -> (r: Result<(), MemoryError>)
        ensures
            r is Ok <==> self.access_ok(address, n as nat, write),
            r matches Err(e) ==> self.error_matches(e, address, n as nat, write),
    {
        self.check_bounds(address, n)?;
        self.check_access(address, write)
    }

    pub fn read_u8(&self, address: u32) -> (r: Result<u8, MemoryError>)
        ensures
            r is Ok <==> self.access_ok(address, 1, false),
            r matches Ok(v) ==> v == self.bytes()[address as int],
            r matches Err(e) ==> self.error_matches(e, address, 1, false),
    {
        self.check(address, 1, false)?;
        Ok(self.data[address as usize])
    }

    pub fn read_u16(&self, address: u32) -> (r: Result<u16, MemoryError>)
        ensures
            r is Ok <==> self.access_ok(address, 2, false),
            r matches Ok(v) ==> v == le_u16(self.bytes(), address as int),
            r matches Err(e) ==> self.error_matches(e, address, 2, false),
    {
        self.check(address, 2, false)?;
        let a = address as usize;
        assert(a + 2 <= self.data.len());
        Ok(self.data[a] as u16 | (self.data[a + 1] as u16) << 8u16)
    }

    pub fn read_u32(&self, address: u32) -> (r: Result<u32, MemoryError>)
        ensures
            r is Ok <==> self.access_ok(address, 4, false),
            r matches Ok(v) ==> v == le_u32(self.bytes(), address as int),
            r matches Err(e) ==> self.error_matches(e, address, 4, false),
    {
        self.check(address, 4, false)?;
        let a = address as usize;
        assert(a + 4 <= self.data.len());
        Ok(self.data[a] as u32 | (self.data[a + 1] as u32) << 8u32 | (self.data[a + 2] as u32) << 16u32
            | (self.data[a + 3] as u32) << 24u32)
    }

    pub fn read_bytes(&self, address: u32, count: usize) -> (r: Result<Vec<u8>, MemoryError>)
        ensures
            r is Ok <==> self.access_ok(address, count as nat, false),
            r matches Ok(v) ==> v@ == self.bytes().subrange(address as int, address + count),
            r matches Err(e) ==> self.error_matches(e, address, count as nat, false),
    {
        self.check(address, count, false)?;
        Ok(self.copy_out(address as usize, count))
    }

    fn copy_out(&self, a: usize, count: usize) -> (v: Vec<u8>)
        requires
            a + count <= self.len_spec(),
        ensures
            v@ == self.bytes().subrange(a as int, a + count),
    {
        let len = self.data.len();
        let mut v: Vec<u8> = Vec::with_capacity(count);
        let mut i: usize = 0;
        while i < count
            invariant
                i <= count,
                a + count <= self.data@.len(),
                len == self.data@.len(),
                v@ == self.data@.subrange(a as int, a + i),
            decreases count - i,
        {
            v.push(self.data[a + i]);
            i += 1;
            assert(v@ =~= self.data@.subrange(a as int, a + i));
        }
        v
    }

    fn copy_in(&mut self, a: usize, src: &[u8])
        requires
            a + src@.len() <= old(self).len_spec(),
        ensures
            final(self).bytes() == splice(old(self).bytes(), a as int, src@),
            final(self).region_seq() == old(self).region_seq(),
            final(self).enforcing() == old(self).enforcing(),
    {
        let len = self.data.len();
        let mut i: usize = 0;
        while i < src.len()
            invariant
                len == self.data@.len(),
                i <= src@.len(),
                a + src@.len() <= self.data@.len(),
                self.data@ == splice(old(self).data@, a as int, src@.subrange(0, i as int)),
                self.regions@ == old(self).regions@,
                self.enforce_permissions == old(self).enforce_permissions,
            decreases src@.len() - i,
        {
            self.data[a + i] = src[i];
            i += 1;
            assert(self.data@ =~= splice(old(self).data@, a as int, src@.subrange(0, i as int)));
        }
        assert(src@.subrange(0, src@.len() as int) =~= src@);
    }

    pub fn write_u8(&mut self, address: u32, value: u8) -> (r: Result<(), MemoryError>)
        ensures
            r is Ok <==> old(self).access_ok(address, 1, true),
            r matches Err(e) ==> old(self).error_matches(e, address, 1, true),
            final(self).bytes() == if r is Ok { old(self).bytes().update(address as int, value) } else { old(self).bytes() },
            final(self).same_shape(old(self)),
    {
        self.check(address, 1, true)?;
        self.data[address as usize] = value;
        Ok(())
    }

    pub fn write_u16(&mut self, address: u32, value: u16) -> (r: Result<(), MemoryError>)
        ensures
            r is Ok <==> old(self).access_ok(address, 2, true),
            r matches Err(e) ==> old(self).error_matches(e, address, 2, true),
            final(self).bytes() == if r is Ok { splice(old(self).bytes(), address as int, u16_bytes(value)) } else { old(self).bytes() },
            final(self).same_shape(old(self)),
    {
        self.check(address, 2, true)?;
        let a = address as usize;
        let b = [(value & 0xff) as u8, (value >> 8u16) as u8];
        proof { assert(b@ =~= u16_bytes(value)); }
        self.copy_in(a, &b);
        Ok(())
    }

    pub fn write_u32(&mut self, address: u32, value: u32) -> (r: Result<(), MemoryError>)
        ensures
            r is Ok <==> old(self).access_ok(address, 4, true),
            r matches Err(e) ==> old(self).error_matches(e, address, 4, true),
            final(self).bytes() == if r is Ok { splice(old(self).bytes(), address as int, u32_bytes(value)) } else { old(self).bytes() },
            final(self).same_shape(old(self)),
    {
        self.check(address, 4, true)?;
        let a = address as usize;
        let b = [(value & 0xff) as u8, ((value >> 8u32) & 0xff) as u8, ((value >> 16u32) & 0xff) as u8, (value >> 24u32) as u8];
        proof { assert(b@ =~= u32_bytes(value)); }
        self.copy_in(a, &b);
        Ok(())
    }

    pub fn write_bytes(&mut self, address: u32, bytes: &[u8]) -> (r: Result<(), MemoryError>)
        ensures
            r is Ok <==> old(self).access_ok(address, bytes@.len(), true),
            r matches Err(e) ==> old(self).error_matches(e, address, bytes@.len(), true),
            final(self).bytes() == if r is Ok { splice(old(self).bytes(), address as int, bytes@) } else { old(self).bytes() },
            final(self).same_shape(old(self)),
    {
        self.check(address, bytes.len(), true)?;
        self.copy_in(address as usize, bytes);
        Ok(())
    }

    /// Raw write for initial placement: checks bounds only.
    pub fn load(&mut self, address: u32, data: &[u8]) -> (r: Result<(), MemoryError>)
        ensures
            r is Ok <==> old(self).in_bounds(address, data@.len()),
            r matches Err(e) ==> e == (MemoryError::OutOfBounds { address, size: old(self).len_spec() as usize }),
            final(self).bytes() == if r is Ok { splice(old(self).bytes(), address as int, data@) } else { old(self).bytes() },
            final(self).same_shape(old(self)),
    {
        self.check_bounds(address, data.len())?;
        self.copy_in(address as usize, data);
        Ok(())
    }

    /// The `count` bytes at `address` for display, or `None` past the end; never
    /// checks permissions.
    pub fn slice(&self, address: u32, count: usize) -> (r: Option<&[u8]>)
        ensures
            r is Some <==> self.in_bounds(address, count as nat),
            r matches Some(v) ==> v@ == self.bytes().subrange(address as int, address + count),
    {
        match self.check_bounds(address, count) {
            Ok(()) => {
                let a = address as usize;
                assert(a + count <= self.data.len());
                Some(vstd::slice::slice_subrange(self.data.as_slice(), a, a + count))
            },
            Err(_) => None,
        }
    }

    /// All of memory.
    pub fn raw(&self) -> (r: &[u8])
        ensures
            r@ == self.bytes(),
    {
        self.data.as_slice()
    }
}

/// `s` with `patch` written over it from index `at`.
pub open spec fn splice(s: Seq<u8>, at: int, patch: Seq<u8>) -> Seq<u8> {
    Seq::new(s.len(), |i: int| if at <= i < at + patch.len() { patch[i - at] } else { s[i] })
}

/// Little-endian 16-bit value of the two bytes at `a`.
pub open spec fn le_u16(s: Seq<u8>, a: int) -> u16 {
    (s[a] as u16 | (s[a + 1] as u16) << 8u16) as u16
}

/// Little-endian 32-bit value of the four bytes at `a`.
pub open spec fn le_u32(s: Seq<u8>, a: int) -> u32 {
    (s[a] as u32 | (s[a + 1] as u32) << 8u32 | (s[a + 2] as u32) << 16u32 | (s[a + 3] as u32) << 24u32) as u32
}

pub open spec fn u16_bytes(v: u16) -> Seq<u8> {
    seq![(v & 0xff) as u8, (v >> 8u16) as u8]
}

pub open spec fn u32_bytes(v: u32) -> Seq<u8> {
    seq![(v & 0xff) as u8, ((v >> 8u32) & 0xff) as u8, ((v >> 16u32) & 0xff) as u8, (v >> 24u32) as u8]
}

/// Reading back what was just written: after a successful `write_bytes(address, data)`
/// the range `[address, address + |data|)` holds exactly `data`, and with permission
/// checks off `read_bytes` of that range succeeds.
pub proof fn law_read_after_write(before: Memory, after: Memory, address: u32, data: Seq<u8>)
    requires
        before.in_bounds(address, data.len()),
        after.same_shape(&before),
        after.bytes() == splice(before.bytes(), address as int, data),
    ensures
        after.bytes().subrange(address as int, address + data.len()) == data,
        !after.enforcing() ==> after.access_ok(address, data.len(), false),
{
    assert(after.bytes().subrange(address as int, address + data.len()) =~= data);
}

/// After a splice, the spliced range holds exactly the patch.
pub proof fn law_read_after_write_bytes(b: Seq<u8>, address: u32, data: Seq<u8>)
    requires
        address + data.len() <= b.len(),
    ensures
        splice(b, address as int, data).subrange(address as int, address + data.len()) == data,
{
    assert(splice(b, address as int, data).subrange(address as int, address + data.len()) =~= data);
}

/// An access running past the end fails with the out-of-bounds error, whatever the
/// permissions; the accessors leave memory unchanged when they fail.
pub proof fn law_out_of_bounds(m: Memory, address: u32, n: nat, write: bool, e: MemoryError)
    requires
        address + n > m.len_spec(),
    ensures
        !m.access_ok(address, n, write),
        m.error_matches(e, address, n, write) <==> e == (MemoryError::OutOfBounds { address, size: m.len_spec() as usize }),
{
}

} // verus!
