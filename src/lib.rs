//! Emulator and debugger core for a 32-bit x86 instruction subset.
pub mod text;
pub mod memory;
pub mod flags;
pub mod cpu;
pub mod decoder;
pub mod executor;
pub mod history;
pub mod debugger;
pub mod search;
pub mod bookmarks;
pub mod puzzle;

pub use memory::{Memory, MemoryError, MemoryRegion, Permissions};
pub use flags::Eflags;
pub use cpu::{CpuFault, CpuState, Register, Registers};
pub use decoder::{DecodedInstruction, Disassembler, DisassemblyLine, Mnemonic, Operand};
pub use executor::{EmulatorError, ExecutionResult, Executor};
pub use history::{History, MemoryPatch};
pub use debugger::{setup_debugger, Debugger, DebuggerError, DebuggerState, HistoryEntry, RunResult, StepResult};
pub use search::{MemorySearch, SearchResult};
pub use bookmarks::{Bookmark, BookmarkManager};
pub use puzzle::{Puzzle, PuzzleMetadata, ValidationResult, Validator};
