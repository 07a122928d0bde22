//! Instruction decoding through iced-x86, converted into the library's own
//! instruction model, and disassembly listings.
use vstd::prelude::*;
use vstd::slice::{slice_subrange, slice_to_vec};
use iced_x86::Formatter;
use crate::cpu::Register;
use crate::text::{eq_ignore_case, same_ignoring_case};

verus! {

/// One operand as the decoder reports it: the `Debug` names of its kind and
/// register, and its immediate when it has one.
#[derive(Debug, Clone)]
pub struct RawOperand {
    pub kind: String,
    pub register: String,
    pub immediate: Option<u64>,
}

/// One instruction as the decoder reports it, in plain values.
#[derive(Debug, Clone)]
pub struct RawDecode {
    pub invalid: bool,
    pub length: usize,
    pub mnemonic: String,
    pub operands: Vec<RawOperand>,
    pub base: String,
    pub index: String,
    pub scale: u32,
    pub displacement: u64,
    pub branch: u64,
}

/// What iced-x86 decodes from `bytes` at address `ip` in mode `bitness`.
pub uninterp spec fn iced_decode(bytes: Seq<u8>, ip: u32, bitness: u32) -> RawDecode;

/// The Intel-syntax text iced-x86 gives the instruction at the start of `bytes`.
pub uninterp spec fn iced_text(bytes: Seq<u8>, ip: u32, bitness: u32) -> Seq<char>;

/// Relies on `iced_x86::Decoder::with_ip(..).decode()` and the accessors of the
/// decoded `Instruction` (`is_invalid`, `len` of 0 to 15 bytes, `mnemonic`, 0 to 5
/// operands with `op_kind` / `op_register` / `try_immediate`, and the memory and
/// branch parts), enum values as their `Debug` names. The result depends on the
/// arguments alone; the decoder panics on a bitness other than 16, 32 or 64.
#[verifier::external_body]
fn iced_decode_raw(bytes: &[u8], ip: u32, bitness: u32) -> (r: RawDecode)
    requires
        bitness == 16 || bitness == 32 || bitness == 64,
    ensures
        r == iced_decode(bytes@, ip, bitness),
        r.length <= 15,
        r.operands@.len() <= 5,
{
    let i = iced_x86::Decoder::with_ip(bitness, bytes, ip as u64, iced_x86::DecoderOptions::NONE).decode();
    let operands = (0..i.op_count()).map(|k| RawOperand {
        kind: format!("{:?}", i.op_kind(k)), register: format!("{:?}", i.op_register(k)), immediate: i.try_immediate(k).ok(),
    }).collect();
    RawDecode {
        invalid: i.is_invalid(), length: i.len(), mnemonic: format!("{:?}", i.mnemonic()), operands,
        base: format!("{:?}", i.memory_base()), index: format!("{:?}", i.memory_index()),
        scale: i.memory_index_scale(), displacement: i.memory_displacement64(), branch: i.near_branch_target(),
    }
}

/// Relies on `iced_x86::IntelFormatter::format` of the instruction decoded as in
/// `iced_decode_raw`: lower-case names, `0x`-prefixed hexadecimal.
#[verifier::external_body]
fn iced_format(bytes: &[u8], ip: u32, bitness: u32) -> (r: String)
    requires
        bitness == 16 || bitness == 32 || bitness == 64,
    ensures
        r@ == iced_text(bytes@, ip, bitness),
{
    let i = iced_x86::Decoder::with_ip(bitness, bytes, ip as u64, iced_x86::DecoderOptions::NONE).decode();
    let mut formatter = iced_x86::IntelFormatter::new();
    formatter.options_mut().set_hex_prefix("0x");
    formatter.options_mut().set_hex_suffix("");
    formatter.options_mut().set_space_after_operand_separator(true);
    let mut text = String::new();
    formatter.format(&i, &mut text);
    text
}

/// The instructions the executor knows, and `Other` for the rest.
#[derive(Debug, Clone, Copy, PartialEq, Eq, Structural)]
pub enum Mnemonic {
    Mov, Push, Pop, Xchg, Lea,
    Add, Sub, Inc, Dec, Neg, Imul, Mul,
    And, Or, Xor, Not, Shl, Sal, Shr, Sar,
    Cmp, Test,
    Jmp, Je, Jne, Jg, Jge, Jl, Jle, Ja, Jae, Jb, Jbe, Js, Jns, Jo, Jno,
    Call, Ret, Nop, Hlt, Int, Int3,
    Other,
}

/// A memory operand: `displacement + base + index * scale`.
#[derive(Debug, Clone, Copy, PartialEq, Eq, Structural)]
pub struct MemOperand {
    pub base: Option<Register>,
    pub index: Option<Register>,
    pub scale: u32,
    pub displacement: u32,
}

/// One decoded operand.
#[derive(Debug, Clone, Copy, PartialEq, Eq, Structural)]
pub enum Operand {
    Reg(Register),
    Imm(u32),
    Mem(MemOperand),
    NearBranch(u32),
    /// A register or operand kind the executor does not handle.
    Unsupported,
}

/// A decoded instruction: mnemonic, operands in order, encoded length.
#[derive(Debug, Clone)]
pub struct DecodedInstruction {
    pub mnemonic: Mnemonic,
    pub operands: Vec<Operand>,
    pub length: u32,
}

/// Mathematical value of a decoded instruction.
pub struct InsView {
    pub mnemonic: Mnemonic,
    pub operands: Seq<Operand>,
    pub length: u32,
}

impl InsView {
    /// Operand `i`, or `Unsupported` when there are fewer operands.
    pub open spec fn op(&self, i: int) -> Operand {
        if 0 <= i < self.operands.len() { self.operands[i] } else { Operand::Unsupported }
    }
}

impl View for DecodedInstruction {
    type V = InsView;

    open spec fn view(&self) -> InsView {
        InsView { mnemonic: self.mnemonic, operands: self.operands@, length: self.length }
    }
}

impl DecodedInstruction {
    /// Operand `i`, or `Unsupported` when there are fewer operands.
    pub open spec fn op(&self, i: int) -> Operand {
        if 0 <= i < self.operands@.len() { self.operands@[i] } else { Operand::Unsupported }
    }

    pub fn operand(&self, i: usize) -> (r: Operand)
        ensures
            r == self.op(i as int),
    {
        if i < self.operands.len() { self.operands[i] } else { Operand::Unsupported }
    }
}

/// The register a decoder register name refers to, ignoring ASCII case; 16- and
/// 8-bit names give the 32-bit register that holds them.
pub open spec fn decoder_register(s: Seq<char>) -> Option<Register> {
    if same_ignoring_case(s, "eax"@) || same_ignoring_case(s, "ax"@) || same_ignoring_case(s, "al"@) || same_ignoring_case(s, "ah"@) {
        Some(Register::Eax)
    } else if same_ignoring_case(s, "ebx"@) || same_ignoring_case(s, "bx"@) || same_ignoring_case(s, "bl"@) || same_ignoring_case(s, "bh"@) {
        Some(Register::Ebx)
    } else if same_ignoring_case(s, "ecx"@) || same_ignoring_case(s, "cx"@) || same_ignoring_case(s, "cl"@) || same_ignoring_case(s, "ch"@) {
        Some(Register::Ecx)
    } else if same_ignoring_case(s, "edx"@) || same_ignoring_case(s, "dx"@) || same_ignoring_case(s, "dl"@) || same_ignoring_case(s, "dh"@) {
        Some(Register::Edx)
    } else if same_ignoring_case(s, "esi"@) || same_ignoring_case(s, "si"@) {
        Some(Register::Esi)
    } else if same_ignoring_case(s, "edi"@) || same_ignoring_case(s, "di"@) {
        Some(Register::Edi)
    } else if same_ignoring_case(s, "ebp"@) || same_ignoring_case(s, "bp"@) {
        Some(Register::Ebp)
    } else if same_ignoring_case(s, "esp"@) || same_ignoring_case(s, "sp"@) {
        Some(Register::Esp)
    } else {
        None
    }
}

/// The executor's register for a decoder register name; 16- and 8-bit names map
/// to the 32-bit register that holds them.
fn register_from_decoder_name(name: &str) -> (r: Option<Register>)
    ensures
        r == decoder_register(name@),
{
    if eq_ignore_case(name, "eax") || eq_ignore_case(name, "ax") || eq_ignore_case(name, "al") || eq_ignore_case(name, "ah") {
        Some(Register::Eax)
    } else if eq_ignore_case(name, "ebx") || eq_ignore_case(name, "bx") || eq_ignore_case(name, "bl") || eq_ignore_case(name, "bh") {
        Some(Register::Ebx)
    } else if eq_ignore_case(name, "ecx") || eq_ignore_case(name, "cx") || eq_ignore_case(name, "cl") || eq_ignore_case(name, "ch") {
        Some(Register::Ecx)
    } else if eq_ignore_case(name, "edx") || eq_ignore_case(name, "dx") || eq_ignore_case(name, "dl") || eq_ignore_case(name, "dh") {
        Some(Register::Edx)
    } else if eq_ignore_case(name, "esi") || eq_ignore_case(name, "si") {
        Some(Register::Esi)
    } else if eq_ignore_case(name, "edi") || eq_ignore_case(name, "di") {
        Some(Register::Edi)
    } else if eq_ignore_case(name, "ebp") || eq_ignore_case(name, "bp") {
        Some(Register::Ebp)
    } else if eq_ignore_case(name, "esp") || eq_ignore_case(name, "sp") {
        Some(Register::Esp)
    } else {
        None
    }
}

/// The mnemonic a decoder mnemonic name stands for, ignoring ASCII case.
pub open spec fn mnemonic_named(s: Seq<char>) -> Mnemonic {
    if same_ignoring_case(s, "mov"@) {
        Mnemonic::Mov
    } else if same_ignoring_case(s, "push"@) {
        Mnemonic::Push
    } else if same_ignoring_case(s, "pop"@) {
        Mnemonic::Pop
    } else if same_ignoring_case(s, "xchg"@) {
        Mnemonic::Xchg
    } else if same_ignoring_case(s, "lea"@) {
        Mnemonic::Lea
    } else if same_ignoring_case(s, "add"@) {
        Mnemonic::Add
    } else if same_ignoring_case(s, "sub"@) {
        Mnemonic::Sub
    } else if same_ignoring_case(s, "inc"@) {
        Mnemonic::Inc
    } else if same_ignoring_case(s, "dec"@) {
        Mnemonic::Dec
    } else if same_ignoring_case(s, "neg"@) {
        Mnemonic::Neg
    } else if same_ignoring_case(s, "imul"@) {
        Mnemonic::Imul
    } else if same_ignoring_case(s, "mul"@) {
        Mnemonic::Mul
    } else if same_ignoring_case(s, "and"@) {
        Mnemonic::And
    } else if same_ignoring_case(s, "or"@) {
        Mnemonic::Or
    } else if same_ignoring_case(s, "xor"@) {
        Mnemonic::Xor
    } else if same_ignoring_case(s, "not"@) {
        Mnemonic::Not
    } else if same_ignoring_case(s, "shl"@) {
        Mnemonic::Shl
    } else if same_ignoring_case(s, "sal"@) {
        Mnemonic::Sal
    } else if same_ignoring_case(s, "shr"@) {
        Mnemonic::Shr
    } else if same_ignoring_case(s, "sar"@) {
        Mnemonic::Sar
    } else if same_ignoring_case(s, "cmp"@) {
        Mnemonic::Cmp
    } else if same_ignoring_case(s, "test"@) {
        Mnemonic::Test
    } else if same_ignoring_case(s, "jmp"@) {
        Mnemonic::Jmp
    } else if same_ignoring_case(s, "je"@) {
        Mnemonic::Je
    } else if same_ignoring_case(s, "jne"@) {
        Mnemonic::Jne
    } else if same_ignoring_case(s, "jg"@) {
        Mnemonic::Jg
    } else if same_ignoring_case(s, "jge"@) {
        Mnemonic::Jge
    } else if same_ignoring_case(s, "jl"@) {
        Mnemonic::Jl
    } else if same_ignoring_case(s, "jle"@) {
        Mnemonic::Jle
    } else if same_ignoring_case(s, "ja"@) {
        Mnemonic::Ja
    } else if same_ignoring_case(s, "jae"@) {
        Mnemonic::Jae
    } else if same_ignoring_case(s, "jb"@) {
        Mnemonic::Jb
    } else if same_ignoring_case(s, "jbe"@) {
        Mnemonic::Jbe
    } else if same_ignoring_case(s, "js"@) {
        Mnemonic::Js
    } else if same_ignoring_case(s, "jns"@) {
        Mnemonic::Jns
    } else if same_ignoring_case(s, "jo"@) {
        Mnemonic::Jo
    } else if same_ignoring_case(s, "jno"@) {
        Mnemonic::Jno
    } else if same_ignoring_case(s, "call"@) {
        Mnemonic::Call
    } else if same_ignoring_case(s, "ret"@) {
        Mnemonic::Ret
    } else if same_ignoring_case(s, "nop"@) {
        Mnemonic::Nop
    } else if same_ignoring_case(s, "hlt"@) {
        Mnemonic::Hlt
    } else if same_ignoring_case(s, "int"@) {
        Mnemonic::Int
    } else if same_ignoring_case(s, "int3"@) {
        Mnemonic::Int3
    } else {
        Mnemonic::Other
    }
}

/// The mnemonic for a decoder mnemonic name.
fn mnemonic_from_name(name: &str) -> (r: Mnemonic)
    ensures
        r == mnemonic_named(name@),
{
    if eq_ignore_case(name, "mov") { Mnemonic::Mov }
    else if eq_ignore_case(name, "push") { Mnemonic::Push }
    else if eq_ignore_case(name, "pop") { Mnemonic::Pop }
    else if eq_ignore_case(name, "xchg") { Mnemonic::Xchg }
    else if eq_ignore_case(name, "lea") { Mnemonic::Lea }
    else if eq_ignore_case(name, "add") { Mnemonic::Add }
    else if eq_ignore_case(name, "sub") { Mnemonic::Sub }
    else if eq_ignore_case(name, "inc") { Mnemonic::Inc }
    else if eq_ignore_case(name, "dec") { Mnemonic::Dec }
    else if eq_ignore_case(name, "neg") { Mnemonic::Neg }
    else if eq_ignore_case(name, "imul") { Mnemonic::Imul }
    else if eq_ignore_case(name, "mul") { Mnemonic::Mul }
    else if eq_ignore_case(name, "and") { Mnemonic::And }
    else if eq_ignore_case(name, "or") { Mnemonic::Or }
    else if eq_ignore_case(name, "xor") { Mnemonic::Xor }
    else if eq_ignore_case(name, "not") { Mnemonic::Not }
    else if eq_ignore_case(name, "shl") { Mnemonic::Shl }
    else if eq_ignore_case(name, "sal") { Mnemonic::Sal }
    else if eq_ignore_case(name, "shr") { Mnemonic::Shr }
    else if eq_ignore_case(name, "sar") { Mnemonic::Sar }
    else if eq_ignore_case(name, "cmp") { Mnemonic::Cmp }
    else if eq_ignore_case(name, "test") { Mnemonic::Test }
    else if eq_ignore_case(name, "jmp") { Mnemonic::Jmp }
    else if eq_ignore_case(name, "je") { Mnemonic::Je }
    else if eq_ignore_case(name, "jne") { Mnemonic::Jne }
    else if eq_ignore_case(name, "jg") { Mnemonic::Jg }
    else if eq_ignore_case(name, "jge") { Mnemonic::Jge }
    else if eq_ignore_case(name, "jl") { Mnemonic::Jl }
    else if eq_ignore_case(name, "jle") { Mnemonic::Jle }
    else if eq_ignore_case(name, "ja") { Mnemonic::Ja }
    else if eq_ignore_case(name, "jae") { Mnemonic::Jae }
    else if eq_ignore_case(name, "jb") { Mnemonic::Jb }
    else if eq_ignore_case(name, "jbe") { Mnemonic::Jbe }
    else if eq_ignore_case(name, "js") { Mnemonic::Js }
    else if eq_ignore_case(name, "jns") { Mnemonic::Jns }
    else if eq_ignore_case(name, "jo") { Mnemonic::Jo }
    else if eq_ignore_case(name, "jno") { Mnemonic::Jno }
    else if eq_ignore_case(name, "call") { Mnemonic::Call }
    else if eq_ignore_case(name, "ret") { Mnemonic::Ret }
    else if eq_ignore_case(name, "nop") { Mnemonic::Nop }
    else if eq_ignore_case(name, "hlt") { Mnemonic::Hlt }
    else if eq_ignore_case(name, "int") { Mnemonic::Int }
    else if eq_ignore_case(name, "int3") { Mnemonic::Int3 }
    else { Mnemonic::Other }
}

pub open spec fn is_immediate_kind(k: Seq<char>) -> bool {
    same_ignoring_case(k, "immediate8"@) || same_ignoring_case(k, "immediate16"@) || same_ignoring_case(k, "immediate32"@)
        || same_ignoring_case(k, "immediate8to32"@) || same_ignoring_case(k, "immediate8to16"@)
}

pub open spec fn is_branch_kind(k: Seq<char>) -> bool {
    same_ignoring_case(k, "nearbranch16"@) || same_ignoring_case(k, "nearbranch32"@) || same_ignoring_case(k, "nearbranch64"@)
}

/// The executor's operand for a decoder operand of instruction `raw`.
pub open spec fn operand_of(o: RawOperand, raw: RawDecode) -> Operand {
    let k = o.kind@;
    if same_ignoring_case(k, "register"@) {
        match decoder_register(o.register@) {
            Some(r) => Operand::Reg(r),
            None => Operand::Unsupported,
        }
    } else if is_immediate_kind(k) {
        match o.immediate {
            Some(v) => Operand::Imm(v as u32),
            None => Operand::Unsupported,
        }
    } else if same_ignoring_case(k, "memory"@) {
        Operand::Mem(MemOperand {
            base: decoder_register(raw.base@),
            index: decoder_register(raw.index@),
            scale: raw.scale,
            displacement: raw.displacement as u32,
        })
    } else if is_branch_kind(k) {
        Operand::NearBranch(raw.branch as u32)
    } else {
        Operand::Unsupported
    }
}

/// The instruction at the start of `bytes`, placed at `ip`, in mode `bitness`;
/// `None` when the bytes hold no valid instruction.
pub open spec fn decoded(bytes: Seq<u8>, ip: u32, bitness: u32) -> Option<InsView> {
    let raw = iced_decode(bytes, ip, bitness);
    if bytes.len() == 0 || raw.invalid || raw.length == 0 || raw.length > bytes.len() {
        None
    } else {
        Some(InsView {
            mnemonic: mnemonic_named(raw.mnemonic@),
            operands: raw.operands@.map_values(|o: RawOperand| operand_of(o, raw)),
            length: raw.length as u32,
        })
    }
}

fn convert_operand(o: &RawOperand, raw: &RawDecode) -> (r: Operand)
    ensures
        r == operand_of(*o, *raw),
{
    let kind = o.kind.as_str();
    if eq_ignore_case(kind, "register") {
        match register_from_decoder_name(o.register.as_str()) {
            Some(reg) => Operand::Reg(reg),
            None => Operand::Unsupported,
        }
    } else if eq_ignore_case(kind, "immediate8") || eq_ignore_case(kind, "immediate16")
        || eq_ignore_case(kind, "immediate32") || eq_ignore_case(kind, "immediate8to32")
        || eq_ignore_case(kind, "immediate8to16") {
        match o.immediate {
            Some(v) => Operand::Imm(v as u32),
            None => Operand::Unsupported,
        }
    } else if eq_ignore_case(kind, "memory") {
        Operand::Mem(MemOperand {
            base: register_from_decoder_name(raw.base.as_str()),
            index: register_from_decoder_name(raw.index.as_str()),
            scale: raw.scale,
            displacement: raw.displacement as u32,
        })
    } else if eq_ignore_case(kind, "nearbranch16") || eq_ignore_case(kind, "nearbranch32")
        || eq_ignore_case(kind, "nearbranch64") {
        Operand::NearBranch(raw.branch as u32)
    } else {
        Operand::Unsupported
    }
}

/// Decodes the 32-bit instruction at the start of `bytes`, placed at address `ip`,
/// with its text; `None` when the bytes hold no valid instruction.
pub fn decode(bytes: &[u8], ip: u32) -> (r: Option<(DecodedInstruction, String)>)
    ensures
        r is None <==> decoded(bytes@, ip, 32) is None,
        r matches Some((ins, text)) ==> decoded(bytes@, ip, 32) == Some(ins@) && text@ == iced_text(bytes@, ip, 32)
            && 1 <= ins.length <= 15 && ins.length <= bytes@.len(),
{
    decode_in_mode(bytes, ip, 32)
}

/// As `decode`, for 16-, 32- or 64-bit code.
pub fn decode_in_mode(bytes: &[u8], ip: u32, bitness: u32) -> (r: Option<(DecodedInstruction, String)>)
    requires
        bitness == 16 || bitness == 32 || bitness == 64,
    ensures
        r is None <==> decoded(bytes@, ip, bitness) is None,
        r matches Some((ins, text)) ==> decoded(bytes@, ip, bitness) == Some(ins@) && text@ == iced_text(bytes@, ip, bitness)
            && 1 <= ins.length <= 15 && ins.length <= bytes@.len(),
{
    if bytes.len() == 0 {
        return None;
    }
    let raw = iced_decode_raw(bytes, ip, bitness);
    if raw.invalid || raw.length == 0 || raw.length > bytes.len() {
        return None;
    }
    let mnemonic = mnemonic_from_name(raw.mnemonic.as_str());
    let mut operands: Vec<Operand> = Vec::new();
    let mut k: usize = 0;
    while k < raw.operands.len()
        invariant
            k <= raw.operands@.len(),
            operands@ == raw.operands@.subrange(0, k as int).map_values(|o: RawOperand| operand_of(o, raw)),
        decreases raw.operands@.len() - k,
    {
        operands.push(convert_operand(&raw.operands[k], &raw));
        k += 1;
        assert(operands@ =~= raw.operands@.subrange(0, k as int).map_values(|o: RawOperand| operand_of(o, raw)));
    }
    assert(raw.operands@.subrange(0, k as int) =~= raw.operands@);
    let text = iced_format(bytes, ip, bitness);
    let ins = DecodedInstruction { mnemonic, operands, length: raw.length as u32 };
    assert(ins@ =~= decoded(bytes@, ip, bitness)->0);
    Some((ins, text))
}

/// One line of a disassembly listing.
#[derive(Debug, Clone)]
pub struct DisassemblyLine {
    pub address: u32,
    pub bytes: Vec<u8>,
    pub text: String,
    pub length: usize,
    pub instruction: DecodedInstruction,
}

/// Disassembles code of one mode: 16, 32 or 64 bits.
#[derive(Debug, Clone, Copy)]
pub struct Disassembler {
    bitness: u32,
}

impl Default for Disassembler {
    fn default() -> (r: Self)
        ensures
            r.mode() == 32,
    {
        Disassembler::new()
    }
}

impl Disassembler {
    pub closed spec fn mode(&self) -> u32 {
        self.bitness
    }

    pub open spec fn valid_mode(&self) -> bool {
        self.mode() == 16 || self.mode() == 32 || self.mode() == 64
    }

    /// A disassembler for 32-bit code.
    pub fn new() -> (r: Self)
        ensures
            r.mode() == 32,
    {
        Disassembler { bitness: 32 }
    }

    /// A disassembler for 16-, 32- or 64-bit code.
    pub fn with_bitness(bitness: u32) -> (r: Self)
        requires
            bitness == 16 || bitness == 32 || bitness == 64,
        ensures
            r.mode() == bitness,
    {
        Disassembler { bitness }
    }

    /// The instruction at the start of `bytes`, placed at `address`.
    pub fn disassemble_one(&self, bytes: &[u8], address: u32) -> (r: Option<DisassemblyLine>)
        requires
            self.valid_mode(),
        ensures
            r is Some <==> decoded(bytes@, address, self.mode()) is Some,
            r matches Some(line) ==> line.address == address && 1 <= line.length <= 15
                && line.length <= bytes@.len() && line.bytes@ == bytes@.subrange(0, line.length as int)
                && line.length == line.instruction.length
                && decoded(bytes@, address, self.mode()) == Some(line.instruction@)
                && line.text@ == iced_text(bytes@, address, self.mode()),
    {
        match decode_in_mode(bytes, address, self.bitness) {
            Some((instruction, text)) => {
                let length = instruction.length as usize;
                let raw = slice_subrange(bytes, 0, length);
                let line_bytes = slice_to_vec(raw);
                Some(DisassemblyLine { address, bytes: line_bytes, text, length, instruction })
            },
            None => None,
        }
    }

    /// Up to `count` consecutive instructions of `bytes`, the first placed at
    /// `start_address`; stops at the first invalid instruction.
    pub fn disassemble(&self, bytes: &[u8], start_address: u32, count: usize) -> (r: Vec<DisassemblyLine>)
        requires
            self.valid_mode(),
            start_address + bytes@.len() <= u32::MAX,
        ensures
            r@.len() <= count,
            forall|k: int| 0 <= k < r@.len() ==> (#[trigger] r@[k]).address >= start_address
                && r@[k].address - start_address + r@[k].length <= bytes@.len(),
            r@.len() > 0 ==> r@[0].address == start_address,
            forall|k: int| 0 <= k < r@.len() - 1 ==> (#[trigger] r@[k + 1]).address == r@[k].address + r@[k].length,
            forall|k: int| 0 <= k < r@.len() ==> line_decodes(#[trigger] r@[k], bytes@, start_address, self.mode()),
            r@.len() < count ==> listing_end(r@, start_address) == bytes@.len()
                || decoded(bytes@.subrange(listing_end(r@, start_address), bytes@.len() as int),
                    (start_address + listing_end(r@, start_address)) as u32, self.mode()) is None,
            is_listing(r@, bytes@, start_address, count, self.mode()),
    {
        let mut result: Vec<DisassemblyLine> = Vec::new();
        let mut offset: usize = 0;
        while offset < bytes.len() && result.len() < count
            invariant
                self.valid_mode(),
                offset <= bytes@.len(),
                start_address + bytes@.len() <= u32::MAX,
                result@.len() <= count,
                forall|k: int| 0 <= k < result@.len() ==> (#[trigger] result@[k]).address >= start_address
                    && result@[k].address - start_address + result@[k].length <= offset,
                result@.len() > 0 ==> result@[0].address == start_address,
                result@.len() == 0 ==> offset == 0,
                result@.len() > 0 ==> result@.last().address - start_address + result@.last().length == offset,
                forall|k: int| 0 <= k < result@.len() - 1 ==> (#[trigger] result@[k + 1]).address == result@[k].address + result@[k].length,
                forall|k: int| 0 <= k < result@.len() ==> line_decodes(#[trigger] result@[k], bytes@, start_address, self.mode()),
                listing_end(result@, start_address) == offset,
            decreases bytes@.len() - offset,
        {
            let rest = slice_subrange(bytes, offset, bytes.len());
            let address = start_address + offset as u32;
            assert(rest@ == bytes@.subrange(offset as int, bytes@.len() as int));
            match self.disassemble_one(rest, address) {
                Some(line) => {
                    let ghost off0 = offset as int;
                    assert(rest@.subrange(0, line.length as int) =~= bytes@.subrange(off0, off0 + line.length));
                    assert(line.address - start_address == off0);
                    offset = offset + line.length;
                    let ghost before = result@;
                    result.push(line);
                    proof {
                        assert(result@.last() == line);
                        assert forall|k: int| 0 <= k < result@.len() implies line_decodes(#[trigger] result@[k], bytes@, start_address, self.mode()) by {
                            if k < before.len() { assert(result@[k] == before[k]); }
                        }
                    }
                },
                None => {
                    return result;
                },
            }
        }
        result
    }

    /// Bytes as upper-case hexadecimal pairs separated by spaces, e.g. `"90 90 CC"`.
    pub fn format_bytes(bytes: &[u8]) -> (r: String)
        ensures
            r@ == hex_listing(bytes@),
    {
        let mut s = String::new();
        let mut i: usize = 0;
        while i < bytes.len()
            invariant
                i <= bytes@.len(),
                s@ == hex_listing(bytes@.subrange(0, i as int)),
            decreases bytes@.len() - i,
        {
            if i > 0 {
                crate::text::append(&mut s, " ");
            }
            let b = bytes[i];
            assert(b >> 4u8 < 16 && b & 0xf < 16) by (bit_vector);
            crate::text::append(&mut s, hex_digit_str(b >> 4u8));
            crate::text::append(&mut s, hex_digit_str(b & 0xf));
            proof {
                assert(bytes@.subrange(0, i + 1).drop_last() =~= bytes@.subrange(0, i as int));
            }
            i += 1;
        }
        assert(bytes@.subrange(0, bytes@.len() as int) =~= bytes@);
        s
    }
}

/// Line `l` of a listing of `bytes` that starts at `start` is what decodes at its offset.
pub open spec fn line_decodes(l: DisassemblyLine, bytes: Seq<u8>, start: u32, mode: u32) -> bool {
    let off = l.address - start;
    &&& decoded(bytes.subrange(off, bytes.len() as int), l.address, mode) == Some(l.instruction@)
    &&& l.text@ == iced_text(bytes.subrange(off, bytes.len() as int), l.address, mode)
    &&& l.bytes@ == bytes.subrange(off, off + l.length)
}

/// `r` is the listing of up to `count` instructions of `bytes` placed at `start`:
/// consecutive lines, each what decodes at its offset, ending early only at the end
/// of the bytes or at bytes that do not decode.
pub open spec fn is_listing(r: Seq<DisassemblyLine>, bytes: Seq<u8>, start: u32, count: usize, mode: u32) -> bool {
    &&& r.len() <= count
    &&& r.len() > 0 ==> r[0].address == start
    &&& forall|k: int| 0 <= k < r.len() - 1 ==> (#[trigger] r[k + 1]).address == r[k].address + r[k].length
    &&& forall|k: int| 0 <= k < r.len() ==> (#[trigger] r[k]).address >= start && line_decodes(r[k], bytes, start, mode)
    &&& r.len() < count ==> listing_end(r, start) == bytes.len()
        || decoded(bytes.subrange(listing_end(r, start), bytes.len() as int), (start + listing_end(r, start)) as u32, mode) is None
}

/// Offset just past the last line of a listing that starts at `start`.
pub open spec fn listing_end(r: Seq<DisassemblyLine>, start: u32) -> int {
    if r.len() == 0 { 0 } else { r.last().address - start + r.last().length }
}

/// Upper-case hexadecimal digit of a value below 16.
pub open spec fn hex_digit(d: u8) -> char {
    if d < 10 { ((d + 0x30) as u8) as char } else { ((d + 0x37) as u8) as char }
}

/// Two hexadecimal digits per byte, separated by single spaces.
pub open spec fn hex_listing(b: Seq<u8>) -> Seq<char>
    decreases b.len(),
{
    if b.len() == 0 {
        seq![]
    } else {
        let head = if b.len() == 1 { seq![] } else { hex_listing(b.drop_last()) + " "@ };
        head + seq![hex_digit(b.last() >> 4u8), hex_digit(b.last() & 0xf)]
    }
}

fn hex_digit_str(d: u8) -> (r: &'static str)
    requires
        d < 16,
    ensures
        r@ == seq![hex_digit(d)],
{
    match d {
        0 => {
            proof { reveal_strlit("0"); }
            "0"
        },
        1 => {
            proof { reveal_strlit("1"); }
            "1"
        },
        2 => {
            proof { reveal_strlit("2"); }
            "2"
        },
        3 => {
            proof { reveal_strlit("3"); }
            "3"
        },
        4 => {
            proof { reveal_strlit("4"); }
            "4"
        },
        5 => {
            proof { reveal_strlit("5"); }
            "5"
        },
        6 => {
            proof { reveal_strlit("6"); }
            "6"
        },
        7 => {
            proof { reveal_strlit("7"); }
            "7"
        },
        8 => {
            proof { reveal_strlit("8"); }
            "8"
        },
        9 => {
            proof { reveal_strlit("9"); }
            "9"
        },
        10 => {
            proof { reveal_strlit("A"); }
            "A"
        },
        11 => {
            proof { reveal_strlit("B"); }
            "B"
        },
        12 => {
            proof { reveal_strlit("C"); }
            "C"
        },
        13 => {
            proof { reveal_strlit("D"); }
            "D"
        },
        14 => {
            proof { reveal_strlit("E"); }
            "E"
        },
        _ => {
            proof { reveal_strlit("F"); }
            "F"
        },
    }
}

} // verus!
