//! Read-only searches over memory: byte patterns, strings, and C strings.
use vstd::prelude::*;
use vstd::string::StringSliceAdditionalSpecFns;
use crate::debugger::DebuggerError;
use crate::history::copy_bytes;
use crate::memory::Memory;
use crate::text::{lower_bytes, lower_vec};

verus! {

/// A match: where it starts and a copy of the matched bytes.
#[derive(Debug, Clone, PartialEq, Eq)]
pub struct SearchResult {
    pub address: u32,
    pub data: Vec<u8>,
}

/// The search functions.
pub struct MemorySearch;

/// `pat` occurs in `hay` at offset `i`.
pub open spec fn occurs_at(hay: Seq<u8>, pat: Seq<u8>, i: int) -> bool {
    0 <= i && i + pat.len() <= hay.len() && hay.subrange(i, i + pat.len()) == pat
}

/// Offsets below `n` at which `pat` occurs in `hay`, ascending.
pub open spec fn occurrences(hay: Seq<u8>, pat: Seq<u8>, n: int) -> Seq<int>
    decreases n,
{
    if n <= 0 {
        seq![]
    } else {
        occurrences(hay, pat, n - 1) + if occurs_at(hay, pat, n - 1) { seq![n - 1] } else { seq![] }
    }
}

/// `r` lists, in order, one result per offset of `offs`, at `start` plus the offset,
/// holding the `len` bytes of `orig` there.
pub open spec fn lists_matches(r: Seq<SearchResult>, offs: Seq<int>, start: u32, orig: Seq<u8>, len: int) -> bool {
    &&& r.len() == offs.len()
    &&& forall|k: int| 0 <= k < r.len() ==> {
        &&& (#[trigger] r[k]).address == start + offs[k]
        &&& r[k].data@ == orig.subrange(offs[k], offs[k] + len)
    }
}

/// A byte that may belong to a C string: printable ASCII or ASCII whitespace.
pub open spec fn string_byte(b: u8) -> bool {
    (0x21 <= b <= 0x7e) || b == 0x20 || b == 0x09 || b == 0x0a || b == 0x0c || b == 0x0d
}

/// A string found by `find_strings`: its offset and its bytes.
pub struct FoundString {
    pub offset: int,
    pub bytes: Seq<u8>,
}

/// State after scanning the first `n` bytes: strings found, the current run, and where it began.
pub open spec fn string_scan(data: Seq<u8>, min: nat, n: int) -> (Seq<FoundString>, Seq<u8>, int)
    decreases n,
{
    if n <= 0 {
        (seq![], seq![], 0)
    } else {
        let (found, run, at) = string_scan(data, min, n - 1);
        let b = data[n - 1];
        if b == 0 {
            (if run.len() >= min && run.len() > 0 { found.push(FoundString { offset: at, bytes: run }) } else { found }, seq![], n)
        } else if string_byte(b) {
            (found, run.push(b), if run.len() == 0 { n - 1 } else { at })
        } else {
            (found, seq![], n)
        }
    }
}

/// `s` with every `c` removed.
pub open spec fn without_char(s: Seq<char>, c: char) -> Seq<char> {
    s.filter(|x: char| x != c)
}

/// `s` with every `"0x"` removed, scanning left to right.
pub open spec fn without_hex_prefix(s: Seq<char>) -> Seq<char>
    decreases s.len(),
{
    if s.len() == 0 {
        s
    } else if s.len() >= 2 && s[0] == '0' && s[1] == 'x' {
        without_hex_prefix(s.subrange(2, s.len() as int))
    } else {
        seq![s[0]] + without_hex_prefix(s.subrange(1, s.len() as int))
    }
}

/// The text of a hex pattern once spaces, `0x` prefixes and commas are removed.
pub open spec fn cleaned_hex(s: Seq<char>) -> Seq<char> {
    without_char(without_hex_prefix(without_char(s, ' ')), ',')
}

/// Value of a hexadecimal digit character.
pub open spec fn hex_value(c: char) -> Option<u8> {
    if '0' <= c <= '9' {
        Some(((c as u32) - 0x30) as u8)
    } else if 'a' <= c <= 'f' {
        Some(((c as u32) - 0x57) as u8)
    } else if 'A' <= c <= 'F' {
        Some(((c as u32) - 0x37) as u8)
    } else {
        None
    }
}

/// All characters of `s` are hexadecimal digits.
pub open spec fn all_hex(s: Seq<char>) -> bool {
    forall|i: int| 0 <= i < s.len() ==> (#[trigger] hex_value(s[i])) is Some
}

/// Bytes spelled by pairs of hex digits.
pub open spec fn hex_bytes(s: Seq<char>) -> Seq<u8> {
    Seq::new(s.len() / 2, |k: int| (hex_value(s[2 * k])->0 * 16 + hex_value(s[2 * k + 1])->0) as u8)
}

pub fn hex_digit_value(c: char) -> (r: Option<u8>)
    ensures
        r == hex_value(c),
{
    if '0' <= c && c <= '9' {
        Some(((c as u32) - 0x30) as u8)
    } else if 'a' <= c && c <= 'f' {
        Some(((c as u32) - 0x57) as u8)
    } else if 'A' <= c && c <= 'F' {
        Some(((c as u32) - 0x37) as u8)
    } else {
        None
    }
}

/// Results for every offset where `pat` occurs in `cmp`, carrying the bytes of `orig`.
fn scan(cmp: &[u8], orig: &[u8], pat: &[u8], start: u32) -> (r: Vec<SearchResult>)
    requires
        cmp@.len() == orig@.len(),
        start + cmp@.len() <= u32::MAX + 1,
        pat@.len() > 0,
    ensures
        lists_matches(r@, occurrences(cmp@, pat@, cmp@.len() as int), start, orig@, pat@.len() as int),
{
    let mut results: Vec<SearchResult> = Vec::new();
    let n = cmp.len();
    let mut i: usize = 0;
    while i < n
        invariant
            n == cmp@.len(),
            cmp@.len() == orig@.len(),
            start + n <= u32::MAX + 1,
            i <= n,
            pat@.len() > 0,
            lists_matches(results@, occurrences(cmp@, pat@, i as int), start, orig@, pat@.len() as int),
        decreases n - i,
    {
        let m = pat.len();
        if m <= n - i {
            let mut j: usize = 0;
            let mut same = true;
            while j < m
                invariant
                    m == pat@.len(),
                    i + m <= n,
                    n == cmp@.len(),
                    j <= m,
                    same == forall|k: int| 0 <= k < j ==> cmp@[i + k] == pat@[k],
                decreases m - j,
            {
                if cmp[i + j] != pat[j] {
                    same = false;
                }
                j += 1;
            }
            proof {
                if same {
                    assert(cmp@.subrange(i as int, i + m) =~= pat@);
                } else {
                    let k = choose|k: int| 0 <= k < m && cmp@[i + k] != pat@[k];
                    assert(cmp@.subrange(i as int, i + m)[k] != pat@[k]);
                }
            }
            if same {
                let data = copy_bytes(vstd::slice::slice_subrange(orig, i, i + m));
                results.push(SearchResult { address: start + i as u32, data });
            }
        }
        proof {
            let ghost occ = occurrences(cmp@, pat@, i as int);
            assert(occurrences(cmp@, pat@, i + 1) == occ + if occurs_at(cmp@, pat@, i as int) { seq![i as int] } else { seq![] });
        }
        i += 1;
    }
    results
}

impl MemorySearch {
    /// Every offset in `[start_address, end_address)` where `pattern` starts,
    /// overlapping matches included.
    pub fn search_bytes(memory: &Memory, pattern: &[u8], start_address: u32, end_address: u32) -> (r: Result<Vec<SearchResult>, DebuggerError>)
        ensures
            pattern@.len() == 0 || start_address >= end_address ==> r matches Err(DebuggerError::InvalidInput(_)),
            pattern@.len() > 0 && start_address < end_address ==> {
                let len = (end_address - start_address) as nat;
                &&& (r is Ok <==> memory.access_ok(start_address, len, false))
                &&& (r matches Err(e) ==> (e matches DebuggerError::Memory(me) && memory.error_matches(me, start_address, len, false)))
                &&& (r matches Ok(v) ==> {
                    let hay = memory.bytes().subrange(start_address as int, start_address + len);
                    lists_matches(v@, occurrences(hay, pattern@, len as int), start_address, hay, pattern@.len() as int)
                })
            },
    {
        if pattern.len() == 0 {
            return Err(DebuggerError::InvalidInput("Search pattern cannot be empty".to_string()));
        }
        if start_address >= end_address {
            return Err(DebuggerError::InvalidInput("Start address must be less than end address".to_string()));
        }
        let data = match memory.read_bytes(start_address, (end_address - start_address) as usize) {
            Ok(d) => d,
            Err(e) => return Err(DebuggerError::Memory(e)),
        };
        Ok(scan(data.as_slice(), data.as_slice(), pattern, start_address))
    }

    /// Like `search_bytes` on the bytes of `text`; without case sensitivity both
    /// sides are ASCII-lower-cased, and results hold the bytes as they are in memory.
    pub fn search_string(memory: &Memory, text: &str, start_address: u32, end_address: u32, case_sensitive: bool) -> (r: Result<Vec<SearchResult>, DebuggerError>)
        ensures
            text.spec_bytes().len() == 0 || start_address >= end_address ==> r matches Err(DebuggerError::InvalidInput(_)),
            text.spec_bytes().len() > 0 && start_address < end_address ==> {
                let len = (end_address - start_address) as nat;
                &&& (r is Ok <==> memory.access_ok(start_address, len, false))
                &&& (r matches Err(e) ==> (e matches DebuggerError::Memory(me) && memory.error_matches(me, start_address, len, false)))
                &&& (r matches Ok(v) ==> {
                    let hay = memory.bytes().subrange(start_address as int, start_address + len);
                    let pat = text.spec_bytes();
                    if case_sensitive {
                        lists_matches(v@, occurrences(hay, pat, len as int), start_address, hay, pat.len() as int)
                    } else {
                        lists_matches(v@, occurrences(lower_bytes(hay), lower_bytes(pat), len as int), start_address, hay, pat.len() as int)
                    }
                })
            },
    {
        let raw = text.as_bytes();
        if raw.len() == 0 {
            return Err(DebuggerError::InvalidInput("Search string cannot be empty".to_string()));
        }
        if start_address >= end_address {
            return Err(DebuggerError::InvalidInput("Start address must be less than end address".to_string()));
        }
        let data = match memory.read_bytes(start_address, (end_address - start_address) as usize) {
            Ok(d) => d,
            Err(e) => return Err(DebuggerError::Memory(e)),
        };
        if case_sensitive {
            Ok(scan(data.as_slice(), data.as_slice(), raw, start_address))
        } else {
            let pat = lower_vec(raw);
            let hay = lower_vec(data.as_slice());
            Ok(scan(hay.as_slice(), data.as_slice(), pat.as_slice(), start_address))
        }
    }

    /// Null-terminated runs of printable ASCII or whitespace of at least
    /// `min_length` bytes in `[start_address, end_address)`.
    pub fn find_strings(memory: &Memory, min_length: usize, start_address: u32, end_address: u32) -> (r: Result<Vec<SearchResult>, DebuggerError>)
        ensures
            start_address >= end_address ==> r matches Err(DebuggerError::InvalidInput(_)),
            start_address < end_address ==> {
                let len = (end_address - start_address) as nat;
                &&& (r is Ok <==> memory.access_ok(start_address, len, false))
                &&& (r matches Err(e) ==> (e matches DebuggerError::Memory(me) && memory.error_matches(me, start_address, len, false)))
                &&& (r matches Ok(v) ==> {
                    let found = string_scan(memory.bytes().subrange(start_address as int, start_address + len), min_length as nat, len as int).0;
                    &&& v@.len() == found.len()
                    &&& forall|k: int| 0 <= k < v@.len() ==> (#[trigger] v@[k]).address == start_address + found[k].offset
                        && v@[k].data@ == found[k].bytes
                })
            },
    {
        if start_address >= end_address {
            return Err(DebuggerError::InvalidInput("Start address must be less than end address".to_string()));
        }
        let data = match memory.read_bytes(start_address, (end_address - start_address) as usize) {
            Ok(d) => d,
            Err(e) => return Err(DebuggerError::Memory(e)),
        };
        let ghost d = data@;
        let n = data.len();
        let mut results: Vec<SearchResult> = Vec::new();
        let mut current: Vec<u8> = Vec::new();
        let mut run_start: usize = 0;
        let mut i: usize = 0;
        while i < n
            invariant
                n == d.len(),
                d == data@,
                start_address + n <= u32::MAX + 1,
                i <= n,
                ({
                    let (found, run, at) = string_scan(d, min_length as nat, i as int);
                    &&& results@.len() == found.len()
                    &&& (forall|k: int| 0 <= k < results@.len() ==> (#[trigger] results@[k]).address == start_address + found[k].offset
                        && results@[k].data@ == found[k].bytes)
                    &&& current@ == run
                    &&& (run.len() > 0 ==> run_start == at)
                    &&& 0 <= at <= i
                    &&& run.len() <= i
                }),
            decreases n - i,
        {
            let b = data[i];
            if b == 0 {
                if current.len() >= min_length && current.len() > 0 {
                    results.push(SearchResult { address: start_address + run_start as u32, data: current });
                }
                current = Vec::new();
            } else if (0x21 <= b && b <= 0x7e) || b == 0x20 || b == 0x09 || b == 0x0a || b == 0x0c || b == 0x0d {
                if current.len() == 0 {
                    run_start = i;
                }
                current.push(b);
            } else {
                current = Vec::new();
            }
            i += 1;
        }
        Ok(results)
    }

    /// Bytes written as hex pairs; spaces, `0x` prefixes and commas are ignored.
    pub fn parse_hex_pattern(hex_string: &str) -> (r: Result<Vec<u8>, String>)
        ensures
            ({
                let c = cleaned_hex(hex_string@);
                &&& (r is Ok <==> c.len() % 2 == 0 && all_hex(c))
                &&& (r matches Ok(v) ==> v@ == hex_bytes(c))
            }),
    {
        let cleaned = clean_hex_text(hex_string);
        let n = cleaned.len();
        if n % 2 != 0 {
            return Err("Hex string must have an even number of characters".to_string());
        }
        let mut bytes: Vec<u8> = Vec::new();
        let mut i: usize = 0;
        while i < n
            invariant
                n == cleaned@.len(),
                cleaned@ == cleaned_hex(hex_string@),
                n % 2 == 0,
                i % 2 == 0,
                i <= n,
                forall|k: int| 0 <= k < i ==> (#[trigger] hex_value(cleaned@[k])) is Some,
                bytes@ == hex_bytes(cleaned@.subrange(0, i as int)),
            decreases n - i,
        {
            let hi = hex_digit_value(cleaned[i]);
            let lo = hex_digit_value(cleaned[i + 1]);
            match (hi, lo) {
                (Some(h), Some(l)) => {
                    bytes.push(h * 16 + l);
                    proof {
                        assert(hex_bytes(cleaned@.subrange(0, i + 2)) =~= hex_bytes(cleaned@.subrange(0, i as int)).push((h * 16 + l) as u8));
                    }
                    i += 2;
                },
                _ => {
                    proof {
                        let k: int = if hi is None { i as int } else { i + 1 };
                        assert(hex_value(cleaned@[k]) is None);
                        assert(!all_hex(cleaned@));
                        assert(cleaned@ == cleaned_hex(hex_string@));
                    }
                    return Err("Invalid hex byte".to_string());
                },
            }
        }
        assert(cleaned@.subrange(0, n as int) =~= cleaned@);
        Ok(bytes)
    }
}

/// The characters of `s` without spaces, `0x` prefixes and commas.
fn clean_hex_text(s: &str) -> (r: Vec<char>)
    ensures
        r@ == cleaned_hex(s@),
{
    let n = s.unicode_len();
    let mut a: Vec<char> = Vec::new();
    let mut i: usize = 0;
    while i < n
        invariant
            n == s@.len(),
            i <= n,
            a@ == without_char(s@.subrange(0, i as int), ' '),
        decreases n - i,
    {
        let c = s.get_char(i);
        if c != ' ' {
            a.push(c);
        }
        proof {
            reveal(Seq::filter);
            assert(s@.subrange(0, i + 1).drop_last() =~= s@.subrange(0, i as int));
        }
        i += 1;
    }
    proof { assert(s@.subrange(0, n as int) =~= s@); }
    let b = drop_hex_prefixes(&a);
    let mut r: Vec<char> = Vec::new();
    let mut j: usize = 0;
    while j < b.len()
        invariant
            j <= b@.len(),
            r@ == without_char(b@.subrange(0, j as int), ','),
        decreases b@.len() - j,
    {
        let c = b[j];
        if c != ',' {
            r.push(c);
        }
        proof {
            reveal(Seq::filter);
            assert(b@.subrange(0, j + 1).drop_last() =~= b@.subrange(0, j as int));
        }
        j += 1;
    }
    proof { assert(b@.subrange(0, b@.len() as int) =~= b@); }
    r
}

fn drop_hex_prefixes(a: &Vec<char>) -> (r: Vec<char>)
    ensures
        r@ == without_hex_prefix(a@),
{
    let mut r: Vec<char> = Vec::new();
    let mut i: usize = 0;
    assert(a@.subrange(0, a@.len() as int) =~= a@);
    assert(r@ + without_hex_prefix(a@) =~= without_hex_prefix(a@));
    while i < a.len()
        invariant
            i <= a@.len(),
            r@ + without_hex_prefix(a@.subrange(i as int, a@.len() as int)) == without_hex_prefix(a@),
        decreases a@.len() - i,
    {
        let ghost rest = a@.subrange(i as int, a@.len() as int);
        if i + 1 < a.len() && a[i] == '0' && a[i + 1] == 'x' {
            proof {
                assert(rest.subrange(2, rest.len() as int) =~= a@.subrange(i + 2, a@.len() as int));
            }
            i += 2;
        } else {
            r.push(a[i]);
            proof {
                assert(rest.subrange(1, rest.len() as int) =~= a@.subrange(i + 1, a@.len() as int));
                assert(without_hex_prefix(rest) == seq![rest[0]] + without_hex_prefix(rest.subrange(1, rest.len() as int)));
                assert(r@ + without_hex_prefix(a@.subrange(i + 1, a@.len() as int)) =~= r@.drop_last() + without_hex_prefix(rest));
            }
            i += 1;
        }
    }
    proof {
        assert(a@.subrange(i as int, a@.len() as int) =~= Seq::<char>::empty());
        assert(r@ + Seq::<char>::empty() =~= r@);
    }
    r
}

} // verus!
