//! Puzzle descriptions as already-parsed setup values, and the rules that decide
//! whether a puzzle is solved.
use vstd::prelude::*;
use crate::cpu::{CpuState, Register, register_named};
use crate::memory::Memory;
use crate::search::{all_hex, hex_bytes, hex_value, without_char};
use crate::text::{bytes_eq, text_eq};

verus! {

broadcast use vstd::std_specs::vec::group_vec_axioms;

/// How hard a puzzle is, in increasing order.
#[derive(Debug, Clone, Copy, PartialEq, Eq, PartialOrd, Ord, Hash, Structural)]
pub enum Difficulty {
    Tutorial,
    Beginner,
    Easy,
    Medium,
    Hard,
    Expert,
}

impl Difficulty {
    pub fn name(&self) -> (r: &'static str)
        ensures
            r@ == match self {
                Difficulty::Tutorial => "Tutorial"@,
                Difficulty::Beginner => "Beginner"@,
                Difficulty::Easy => "Easy"@,
                Difficulty::Medium => "Medium"@,
                Difficulty::Hard => "Hard"@,
                Difficulty::Expert => "Expert"@,
            },
    {
        match self {
            Difficulty::Tutorial => "Tutorial",
            Difficulty::Beginner => "Beginner",
            Difficulty::Easy => "Easy",
            Difficulty::Medium => "Medium",
            Difficulty::Hard => "Hard",
            Difficulty::Expert => "Expert",
        }
    }

    /// The difficulty of a numeric level; 5 and above are `Expert`.
    pub fn from_level(level: u8) -> (r: Self)
        ensures
            r == match level {
                0 => Difficulty::Tutorial,
                1 => Difficulty::Beginner,
                2 => Difficulty::Easy,
                3 => Difficulty::Medium,
                4 => Difficulty::Hard,
                _ => Difficulty::Expert,
            },
    {
        match level {
            0 => Difficulty::Tutorial,
            1 => Difficulty::Beginner,
            2 => Difficulty::Easy,
            3 => Difficulty::Medium,
            4 => Difficulty::Hard,
            _ => Difficulty::Expert,
        }
    }
}

/// The kind of puzzle.
#[derive(Debug, Clone, PartialEq, Eq)]
pub enum Category {
    Patching,
    Crackme,
    Keygen,
    Reconstruction,
    AntiDebug,
    Custom(String),
}

impl Category {
    pub fn name(&self) -> (r: &str)
        ensures
            r@ == match self {
                Category::Patching => "Patching"@,
                Category::Crackme => "Crackme"@,
                Category::Keygen => "Keygen"@,
                Category::Reconstruction => "Reconstruction"@,
                Category::AntiDebug => "Anti-Debug"@,
                Category::Custom(name) => name@,
            },
    {
        match self {
            Category::Patching => "Patching",
            Category::Crackme => "Crackme",
            Category::Keygen => "Keygen",
            Category::Reconstruction => "Reconstruction",
            Category::AntiDebug => "Anti-Debug",
            Category::Custom(name) => name.as_str(),
        }
    }
}

#[derive(Debug, Clone)]
pub struct PuzzleMetadata {
    pub id: String,
    pub title: String,
    pub difficulty: u8,
    pub category: Category,
    pub tags: Vec<String>,
    pub estimated_time_minutes: Option<u32>,
    pub prerequisites: Vec<String>,
}

#[derive(Debug, Clone)]
pub struct PuzzleDescription {
    pub brief: String,
    pub detailed: String,
}

/// Initial register values; absent ones keep their default.
#[derive(Debug, Clone, Default)]
pub struct RegisterSetup {
    pub eax: Option<u32>,
    pub ebx: Option<u32>,
    pub ecx: Option<u32>,
    pub edx: Option<u32>,
    pub esi: Option<u32>,
    pub edi: Option<u32>,
    pub ebp: Option<u32>,
    pub esp: Option<u32>,
}

/// Code as hex text, and the entry point as an offset from the code start.
#[derive(Debug, Clone)]
pub struct CodeSetup {
    pub bytes: String,
    pub entry_point: u32,
}

#[derive(Debug, Clone)]
pub struct DataSetup {
    pub bytes: String,
}

#[derive(Debug, Clone)]
pub struct PuzzleSetup {
    pub memory_size: usize,
    pub code_start: u32,
    pub data_start: u32,
    pub stack_start: u32,
    pub registers: RegisterSetup,
    pub code: CodeSetup,
    pub data: Option<DataSetup>,
}

/// A validation rule as written in a puzzle: `register_value`, `memory_value`,
/// `normal_halt`, or `all` / `any` over `conditions`.
#[derive(Debug)]
pub struct PuzzleValidation {
    pub validation_type: String,
    pub register: Option<String>,
    pub expected: Option<u32>,
    pub address: Option<u32>,
    pub expected_bytes: Option<Vec<u8>>,
    pub conditions: Vec<PuzzleValidation>,
}

/// Up to three hints, from gentle to explicit.
#[derive(Debug, Clone, Default)]
pub struct PuzzleHints {
    pub level1: Option<String>,
    pub level2: Option<String>,
    pub level3: Option<String>,
}

fn hint_text(h: &Option<String>) -> (r: Option<&str>)
    ensures
        r is Some == h is Some,
        r matches Some(s) ==> h matches Some(t) && s@ == t@,
{
    match h {
        Some(s) => Some(s.as_str()),
        None => None,
    }
}

impl PuzzleHints {
    /// The hint of level 1, 2 or 3.
    pub fn get_hint(&self, level: usize) -> (r: Option<&str>)
        ensures
            r is Some <==> (level == 1 && self.level1 is Some) || (level == 2 && self.level2 is Some)
                || (level == 3 && self.level3 is Some),
            r matches Some(s) ==> (level == 1 ==> (self.level1 matches Some(t) && s@ == t@))
                && (level == 2 ==> (self.level2 matches Some(t) && s@ == t@))
                && (level == 3 ==> (self.level3 matches Some(t) && s@ == t@)),
    {
        match level {
            1 => hint_text(&self.level1),
            2 => hint_text(&self.level2),
            3 => hint_text(&self.level3),
            _ => None,
        }
    }

    /// How many of the three hints are present.
    pub fn hint_count(&self) -> (r: usize)
        ensures
            r == (if self.level1 is Some { 1nat } else { 0nat }) + (if self.level2 is Some { 1nat } else { 0nat })
                + (if self.level3 is Some { 1nat } else { 0nat }),
    {
        let mut count: usize = 0;
        if self.level1.is_some() {
            count += 1;
        }
        if self.level2.is_some() {
            count += 1;
        }
        if self.level3.is_some() {
            count += 1;
        }
        count
    }
}

/// A complete puzzle.
#[derive(Debug)]
pub struct Puzzle {
    pub metadata: PuzzleMetadata,
    pub description: PuzzleDescription,
    pub setup: PuzzleSetup,
    pub validation: PuzzleValidation,
    pub hints: PuzzleHints,
}

/// Hex text of a puzzle with spaces and line breaks removed.
pub open spec fn cleaned_code_hex(s: Seq<char>) -> Seq<char> {
    without_char(without_char(without_char(s, ' '), '\n'), '\r')
}

fn keep_hex_chars(s: &str) -> (r: Vec<char>)
    ensures
        r@ == cleaned_code_hex(s@),
{
    let n = s.unicode_len();
    let mut a: Vec<char> = Vec::new();
    let mut b: Vec<char> = Vec::new();
    let mut c: Vec<char> = Vec::new();
    let mut i: usize = 0;
    while i < n
        invariant
            n == s@.len(),
            i <= n,
            a@ == without_char(s@.subrange(0, i as int), ' '),
            b@ == without_char(a@, '\n'),
            c@ == without_char(b@, '\r'),
        decreases n - i,
    {
        let ch = s.get_char(i);
        proof {
            reveal(Seq::filter);
            assert(s@.subrange(0, i + 1).drop_last() =~= s@.subrange(0, i as int));
        }
        if ch != ' ' {
            let ghost a0 = a@;
            let ghost b0 = b@;
            a.push(ch);
            proof { assert(a@.drop_last() =~= a0); }
            if ch != '\n' {
                b.push(ch);
                proof { assert(b@.drop_last() =~= b0); }
                if ch != '\r' {
                    let ghost c0 = c@;
                    c.push(ch);
                    proof { assert(c@.drop_last() =~= c0); }
                }
            }
        }
        i += 1;
    }
    proof { assert(s@.subrange(0, n as int) =~= s@); }
    c
}

impl Puzzle {
    /// Absolute address where execution starts.
    pub fn entry_point(&self) -> (r: u32)
        requires
            self.setup.code_start + self.setup.code.entry_point <= u32::MAX,
        ensures
            r == self.setup.code_start + self.setup.code.entry_point,
    {
        self.setup.code_start + self.setup.code.entry_point
    }

    /// Bytes from hex text; spaces and line breaks are ignored.
    pub fn parse_hex(hex: &str) -> (r: Result<Vec<u8>, String>)
        ensures
            ({
                let c = cleaned_code_hex(hex@);
                &&& (r is Ok <==> c.len() % 2 == 0 && all_hex(c))
                &&& (r matches Ok(v) ==> v@ == hex_bytes(c))
            }),
    {
        let cleaned = keep_hex_chars(hex);
        let n = cleaned.len();
        if n % 2 != 0 {
            return Err("Hex string must have even length".to_string());
        }
        let mut bytes: Vec<u8> = Vec::with_capacity(n / 2);
        let mut i: usize = 0;
        while i < n
            invariant
                n == cleaned@.len(),
                cleaned@ == cleaned_code_hex(hex@),
                n % 2 == 0,
                i % 2 == 0,
                i <= n,
                forall|k: int| 0 <= k < i ==> (#[trigger] hex_value(cleaned@[k])) is Some,
                bytes@ == hex_bytes(cleaned@.subrange(0, i as int)),
            decreases n - i,
        {
            match (crate::search::hex_digit_value(cleaned[i]), crate::search::hex_digit_value(cleaned[i + 1])) {
                (Some(h), Some(l)) => {
                    bytes.push(h * 16 + l);
                    proof {
                        assert(hex_bytes(cleaned@.subrange(0, i + 2)) =~= hex_bytes(cleaned@.subrange(0, i as int)).push((h * 16 + l) as u8));
                    }
                    i += 2;
                },
                (hi, _) => {
                    proof {
                        let k: int = if hi is None { i as int } else { i + 1 };
                        assert(hex_value(cleaned@[k]) is None);
                        assert(!all_hex(cleaned@));
                    }
                    return Err("Invalid hex digit".to_string());
                },
            }
        }
        assert(cleaned@.subrange(0, n as int) =~= cleaned@);
        Ok(bytes)
    }

    pub fn code_bytes(&self) -> (r: Result<Vec<u8>, String>)
        ensures
            ({
                let c = cleaned_code_hex(self.setup.code.bytes@);
                &&& (r is Ok <==> c.len() % 2 == 0 && all_hex(c))
                &&& (r matches Ok(v) ==> v@ == hex_bytes(c))
            }),
    {
        Self::parse_hex(self.setup.code.bytes.as_str())
    }

    /// The data bytes, or `None` when the puzzle has no data.
    pub fn data_bytes(&self) -> (r: Result<Option<Vec<u8>>, String>)
        ensures
            self.setup.data is None ==> r == Ok::<Option<Vec<u8>>, String>(None),
            self.setup.data matches Some(d) ==> {
                let c = cleaned_code_hex(d.bytes@);
                &&& (r is Ok <==> c.len() % 2 == 0 && all_hex(c))
                &&& (r matches Ok(Some(v)) ==> v@ == hex_bytes(c))
                &&& !(r matches Ok(None))
            },
    {
        match &self.setup.data {
            Some(data) => match Self::parse_hex(data.bytes.as_str()) {
                Ok(b) => Ok(Some(b)),
                Err(e) => Err(e),
            },
            None => Ok(None),
        }
    }
}

/// Outcome of checking a puzzle.
#[derive(Debug, Clone)]
pub enum ValidationResult {
    Success,
    /// Not solved yet, with the reason.
    Failure(String),
    /// The rule itself is malformed or could not be checked.
    Error(String),
}

impl ValidationResult {
    pub fn is_success(&self) -> (r: bool)
        ensures
            r == self is Success,
    {
        match self {
            ValidationResult::Success => true,
            _ => false,
        }
    }
}

/// Typed validation rules.
#[derive(Debug)]
pub enum ValidationRule {
    RegisterValue { register: Register, expected: u32 },
    MemoryValue { address: u32, expected: Vec<u8> },
    NormalHalt,
    All(Vec<ValidationRule>),
    Any(Vec<ValidationRule>),
}

/// The three kinds of validation result.
pub enum Verdict {
    Pass,
    Fail,
    Invalid,
}

pub open spec fn verdict_of(r: ValidationResult) -> Verdict {
    match r {
        ValidationResult::Success => Verdict::Pass,
        ValidationResult::Failure(_) => Verdict::Fail,
        ValidationResult::Error(_) => Verdict::Invalid,
    }
}

/// What rule `c` decides for `cpu` and `mem`.
pub open spec fn verdict(c: PuzzleValidation, cpu: CpuState, mem: Memory) -> Verdict
    decreases c, c.conditions@.len() + 1,
{
    let t = c.validation_type@;
    if t == "register_value"@ {
        match (c.register, c.expected) {
            (Some(name), Some(v)) => match register_named(name@) {
                Some(reg) => if cpu.reg(reg) == v { Verdict::Pass } else { Verdict::Fail },
                None => Verdict::Invalid,
            },
            _ => Verdict::Invalid,
        }
    } else if t == "memory_value"@ {
        match (c.address, c.expected_bytes) {
            (Some(a), Some(bytes)) => if mem.access_ok(a, bytes@.len(), false) {
                if mem.bytes().subrange(a as int, a + bytes@.len()) == bytes@ { Verdict::Pass } else { Verdict::Fail }
            } else {
                Verdict::Invalid
            },
            _ => Verdict::Invalid,
        }
    } else if t == "normal_halt"@ {
        if cpu.halted { Verdict::Pass } else { Verdict::Fail }
    } else if t == "all"@ {
        all_verdict(c, 0, cpu, mem)
    } else if t == "any"@ {
        any_verdict(c, 0, cpu, mem)
    } else {
        Verdict::Invalid
    }
}

/// Conditions `i..` of `c` all pass: the first one that does not decides.
pub open spec fn all_verdict(c: PuzzleValidation, i: int, cpu: CpuState, mem: Memory) -> Verdict
    decreases c, c.conditions@.len() - i,
{
    if i < 0 || i >= c.conditions@.len() {
        Verdict::Pass
    } else {
        match verdict(c.conditions@[i], cpu, mem) {
            Verdict::Pass => all_verdict(c, i + 1, cpu, mem),
            other => other,
        }
    }
}

/// Some condition from `i` on passes; an invalid one stops the search.
pub open spec fn any_verdict(c: PuzzleValidation, i: int, cpu: CpuState, mem: Memory) -> Verdict
    decreases c, c.conditions@.len() - i,
{
    if i < 0 || i >= c.conditions@.len() {
        Verdict::Fail
    } else {
        match verdict(c.conditions@[i], cpu, mem) {
            Verdict::Fail => any_verdict(c, i + 1, cpu, mem),
            other => other,
        }
    }
}

/// Checks puzzles against their validation rules.
pub struct Validator;

impl Validator {
    /// Whether the puzzle is solved in the given CPU state and memory.
    pub fn validate(puzzle: &Puzzle, cpu: &CpuState, memory: &Memory) -> (r: ValidationResult)
        ensures
            verdict_of(r) == verdict(puzzle.validation, *cpu, *memory),
    {
        Self::validate_config(&puzzle.validation, cpu, memory)
    }

    /// What one rule decides.
    pub fn validate_config(config: &PuzzleValidation, cpu: &CpuState, memory: &Memory) -> (r: ValidationResult)
        ensures
            verdict_of(r) == verdict(*config, *cpu, *memory),
        decreases config,
    {
        let t = config.validation_type.as_str();
        if text_eq(t, "register_value") {
            let name = match &config.register {
                Some(r) => r,
                None => return ValidationResult::Error("Missing register name".to_string()),
            };
            let expected = match config.expected {
                Some(v) => v,
                None => return ValidationResult::Error("Missing expected value".to_string()),
            };
            let register = match Register::from_name(name.as_str()) {
                Some(r) => r,
                None => return ValidationResult::Error("Unknown register".to_string()),
            };
            if cpu.get_register(register) == expected {
                ValidationResult::Success
            } else {
                ValidationResult::Failure("Register does not hold the expected value".to_string())
            }
        } else if text_eq(t, "memory_value") {
            let address = match config.address {
                Some(a) => a,
                None => return ValidationResult::Error("Missing address".to_string()),
            };
            let expected = match &config.expected_bytes {
                Some(b) => b,
                None => return ValidationResult::Error("Missing expected bytes".to_string()),
            };
            match memory.read_bytes(address, expected.len()) {
                Ok(actual) => if bytes_eq(actual.as_slice(), expected.as_slice()) {
                    ValidationResult::Success
                } else {
                    ValidationResult::Failure("Memory does not hold the expected bytes".to_string())
                },
                Err(_) => ValidationResult::Error("Memory read error".to_string()),
            }
        } else if text_eq(t, "normal_halt") {
            if cpu.halted {
                ValidationResult::Success
            } else {
                ValidationResult::Failure("Program did not halt".to_string())
            }
        } else if text_eq(t, "all") {
            let mut i: usize = 0;
            while i < config.conditions.len()
                invariant
                    i <= config.conditions@.len(),
                    all_verdict(*config, 0, *cpu, *memory) == all_verdict(*config, i as int, *cpu, *memory),
                    verdict(*config, *cpu, *memory) == all_verdict(*config, 0, *cpu, *memory),
                decreases config.conditions@.len() - i,
            {
                let result = Self::validate_config(&config.conditions[i], cpu, memory);
                match result {
                    ValidationResult::Success => {},
                    _ => return result,
                }
                i += 1;
            }
            ValidationResult::Success
        } else if text_eq(t, "any") {
            let mut i: usize = 0;
            while i < config.conditions.len()
                invariant
                    i <= config.conditions@.len(),
                    any_verdict(*config, 0, *cpu, *memory) == any_verdict(*config, i as int, *cpu, *memory),
                    verdict(*config, *cpu, *memory) == any_verdict(*config, 0, *cpu, *memory),
                decreases config.conditions@.len() - i,
            {
                let result = Self::validate_config(&config.conditions[i], cpu, memory);
                match result {
                    ValidationResult::Failure(_) => {},
                    _ => return result,
                }
                i += 1;
            }
            ValidationResult::Failure("No conditions matched".to_string())
        } else {
            ValidationResult::Error("Unknown validation type".to_string())
        }
    }
}

} // verus!
