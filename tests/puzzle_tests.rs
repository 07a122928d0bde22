use revgame_core::puzzle::{
    Category, CodeSetup, DataSetup, Difficulty, PuzzleDescription, PuzzleHints, PuzzleSetup, PuzzleValidation, RegisterSetup,
};
use revgame_core::{CpuState, Memory, Puzzle, Validator};

fn rule(kind: &str) -> PuzzleValidation {
    PuzzleValidation {
        validation_type: kind.to_string(),
        register: None,
        expected: None,
        address: None,
        expected_bytes: None,
        conditions: Vec::new(),
    }
}

#[test]
fn test_parse_hex() {
    assert_eq!(Puzzle::parse_hex("90").unwrap(), vec![0x90]);
    assert_eq!(Puzzle::parse_hex("90 90").unwrap(), vec![0x90, 0x90]);
    assert_eq!(Puzzle::parse_hex("DEADBEEF").unwrap(), vec![0xDE, 0xAD, 0xBE, 0xEF]);
}

#[test]
fn test_difficulty_ordering() {
    assert!(Difficulty::Tutorial < Difficulty::Beginner);
    assert!(Difficulty::Beginner < Difficulty::Expert);
}

#[test]
fn test_register_validation() {
    let mut cpu = CpuState::default();
    cpu.regs.eax = 0x42;
    let memory = Memory::new(0x1000);
    let config = PuzzleValidation {
        validation_type: "register_value".to_string(),
        register: Some("eax".to_string()),
        expected: Some(0x42),
        address: None,
        expected_bytes: None,
        conditions: Vec::new(),
    };
    let result = Validator::validate_config(&config, &cpu, &memory);
    assert!(result.is_success());
    cpu.regs.eax = 0x41;
    let result = Validator::validate_config(&config, &cpu, &memory);
    assert!(!result.is_success());
}

#[test]
fn test_halt_validation() {
    let mut cpu = CpuState::default();
    let memory = Memory::new(0x1000);
    let config = PuzzleValidation {
        validation_type: "normal_halt".to_string(),
        register: None,
        expected: None,
        address: None,
        expected_bytes: None,
        conditions: Vec::new(),
    };
    let result = Validator::validate_config(&config, &cpu, &memory);
    assert!(!result.is_success());
    cpu.halted = true;
    let result = Validator::validate_config(&config, &cpu, &memory);
    assert!(result.is_success());
}

#[test]
fn combined_and_memory_rules() {
    let mut cpu = CpuState::default();
    cpu.halted = true;
    let mut memory = Memory::new(0x100);
    memory.write_bytes(0x10, &[1, 2]).unwrap();
    let mut mem_rule = rule("memory_value");
    mem_rule.address = Some(0x10);
    mem_rule.expected_bytes = Some(vec![1, 2]);
    let mut all = rule("all");
    all.conditions = vec![rule("normal_halt"), mem_rule];
    assert!(Validator::validate_config(&all, &cpu, &memory).is_success());
    cpu.halted = false;
    assert!(!Validator::validate_config(&all, &cpu, &memory).is_success());
    let mut any = rule("any");
    any.conditions = vec![rule("normal_halt")];
    assert!(matches!(Validator::validate_config(&any, &cpu, &memory), revgame_core::ValidationResult::Failure(_)));
    assert!(matches!(Validator::validate_config(&rule("bogus"), &cpu, &memory), revgame_core::ValidationResult::Error(_)));
    let mut far = rule("memory_value");
    far.address = Some(0xFF);
    far.expected_bytes = Some(vec![0, 0]);
    assert!(matches!(Validator::validate_config(&far, &cpu, &memory), revgame_core::ValidationResult::Error(_)));
}

#[test]
fn names_hints_and_levels() {
    assert_eq!(Difficulty::from_level(3), Difficulty::Medium);
    assert_eq!(Difficulty::from_level(9), Difficulty::Expert);
    assert_eq!(Difficulty::Hard.name(), "Hard");
    assert_eq!(Category::AntiDebug.name(), "Anti-Debug");
    assert_eq!(Category::Custom("Mine".to_string()).name(), "Mine");
    let hints = PuzzleHints { level1: Some("a".to_string()), level2: None, level3: Some("c".to_string()) };
    assert_eq!(hints.hint_count(), 2);
    assert_eq!(hints.get_hint(3), Some("c"));
    assert_eq!(hints.get_hint(2), None);
    assert_eq!(hints.get_hint(4), None);
    assert!(Puzzle::parse_hex("9G").is_err());
    assert!(Puzzle::parse_hex("909").is_err());
    assert_eq!(Puzzle::parse_hex("90\n\r90").unwrap(), vec![0x90, 0x90]);
    let _ = CodeSetup { bytes: "90".to_string(), entry_point: 0 };
    let _ = DataSetup { bytes: "01".to_string() };
}

fn sample_puzzle(code: &str, validation: PuzzleValidation) -> Puzzle {
    Puzzle {
        metadata: revgame_core::PuzzleMetadata {
            id: "p1".to_string(),
            title: "Sample".to_string(),
            difficulty: 1,
            category: Category::Patching,
            tags: Vec::new(),
            estimated_time_minutes: None,
            prerequisites: Vec::new(),
        },
        description: PuzzleDescription { brief: "b".to_string(), detailed: "d".to_string() },
        setup: PuzzleSetup {
            memory_size: 0x10000,
            code_start: 0x1000,
            data_start: 0x2000,
            stack_start: 0x3000,
            registers: RegisterSetup { ebx: Some(7), ..RegisterSetup::default() },
            code: CodeSetup { bytes: code.to_string(), entry_point: 0 },
            data: Some(DataSetup { bytes: "AA BB".to_string() }),
        },
        validation,
        hints: PuzzleHints::default(),
    }
}

#[test]
fn puzzle_setup_runs_and_validates() {
    let mut check = rule("register_value");
    check.register = Some("EAX".to_string());
    check.expected = Some(7);
    let puzzle = sample_puzzle("89 D8 F4", check);
    assert_eq!(puzzle.entry_point(), 0x1000);
    let mut dbg = revgame_core::setup_debugger(&puzzle).unwrap();
    assert_eq!(dbg.cpu.regs.ebx, 7);
    assert_eq!(dbg.cpu.regs.esp, 0x3000);
    assert_eq!(dbg.memory.read_bytes(0x2000, 2).unwrap(), vec![0xAA, 0xBB]);
    assert!(!Validator::validate(&puzzle, &dbg.cpu, &dbg.memory).is_success());
    assert_eq!(dbg.run().unwrap(), revgame_core::RunResult::Halted);
    assert!(Validator::validate(&puzzle, &dbg.cpu, &dbg.memory).is_success());
    dbg.reset();
    assert_eq!(dbg.cpu.regs.eax, 0);
    assert_eq!(puzzle.data_bytes().unwrap(), Some(vec![0xAA, 0xBB]));
    assert!(revgame_core::setup_debugger(&sample_puzzle("8", rule("normal_halt"))).is_err());
}
